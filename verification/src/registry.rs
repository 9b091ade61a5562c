use std::collections::HashMap;

use vstd::prelude::*;

use crate::idset::{contains_id, insert_id, remove_id};

verus! {

/// The (key, stream id) pairs of the streams in `groups` under the keys of
/// `keys`.
pub open spec fn streams_under(groups: Map<usize, Set<usize>>, keys: Set<usize>) -> Set<(usize, usize)> {
    Set::new(|p: (usize, usize)| keys.contains(p.0) && groups.contains_key(p.0) && groups[p.0].contains(p.1))
}

/// The registry after stream `stream_id` is added under `key`.
pub open spec fn registry_add(registry: Map<usize, Set<usize>>, key: usize, stream_id: usize) -> Map<usize, Set<usize>> {
    registry.insert(
        key,
        if registry.contains_key(key) {
            registry[key].insert(stream_id)
        } else {
            set![stream_id]
        },
    )
}

/// The registry after stream `stream_id` leaves `key`; a key left with no
/// stream goes.
pub open spec fn registry_drop(registry: Map<usize, Set<usize>>, key: usize, stream_id: usize) -> Map<usize, Set<usize>> {
    if !registry.contains_key(key) {
        registry
    } else if registry[key].remove(stream_id).is_empty() {
        registry.remove(key)
    } else {
        registry.insert(key, registry[key].remove(stream_id))
    }
}

/// The streams registered under each key, and the keys whose streams are to
/// be woken.
pub struct WakerRegistry {
    groups: HashMap<usize, Vec<usize>>,
    changed_keys: Vec<usize>,
}

impl WakerRegistry {
    /// The stream ids registered under each key.
    pub closed spec fn groups(&self) -> Map<usize, Set<usize>> {
        self.groups@.map_values(|ids: Vec<usize>| ids@.to_set())
    }

    /// The keys marked as changed since the last wake-up.
    pub closed spec fn changed_keys(&self) -> Set<usize> {
        self.changed_keys@.to_set()
    }

    pub closed spec fn wf(&self) -> bool {
        &&& forall|k: usize| #[trigger] self.groups@.contains_key(k) ==> {
            &&& self.groups@[k]@.no_duplicates()
            &&& self.groups@[k]@.len() > 0
        }
        &&& self.changed_keys@.no_duplicates()
        &&& forall|k: usize| #[trigger] self.changed_keys@.to_set().contains(k) ==> self.groups@.contains_key(k)
    }

    /// What the registry keeps between calls: every key has at least one
    /// stream, and only registered keys are marked changed.
    pub proof fn lemma_keys(&self)
        requires
            self.wf(),
        ensures
            forall|k: usize| #[trigger] self.groups().contains_key(k) ==> !self.groups()[k].is_empty(),
            self.changed_keys().subset_of(self.groups().dom()),
    {
        assert forall|k: usize| #[trigger] self.groups().contains_key(k) implies !self.groups()[k].is_empty() by {
            let ids = self.groups@[k]@;
            assert(ids.to_set().contains(ids[0]));
        }
    }

    /// No streams and no marks.
    pub fn new() -> (r: Self)
        ensures
            r.wf(),
            r.groups() == Map::<usize, Set<usize>>::empty(),
            r.changed_keys() == Set::<usize>::empty(),
    {
        let r = WakerRegistry { groups: HashMap::new(), changed_keys: Vec::new() };
        proof {
            assert(r.groups() =~= Map::<usize, Set<usize>>::empty());
            assert(r.changed_keys() =~= Set::<usize>::empty());
        }
        r
    }

    /// Registers stream `stream_id` under `key`.
    pub fn new_stream(&mut self, key: usize, stream_id: usize)
        requires
            old(self).wf(),
        ensures
            final(self).wf(),
            final(self).groups() == registry_add(old(self).groups(), key, stream_id),
            final(self).changed_keys() == old(self).changed_keys(),
    {
        let ghost before = self.groups@;
        let mut ids = match self.groups.remove(&key) {
            Some(ids) => ids,
            None => Vec::new(),
        };
        proof {
            if !before.contains_key(key) {
                assert(ids@.to_set() =~= Set::<usize>::empty());
            }
        }
        insert_id(&mut ids, stream_id);
        proof {
            assert(ids@.to_set().contains(stream_id));
            if ids@.len() == 0 {
                assert(!ids@.contains(stream_id));
            }
            if !before.contains_key(key) {
                assert(ids@.to_set() =~= set![stream_id]);
            }
        }
        self.groups.insert(key, ids);
        proof {
            assert(self.groups() =~= old(self).groups().insert(key, ids@.to_set()));
        }
    }

    /// Takes stream `stream_id` out from under `key`; a key left with no
    /// stream goes, and stops being marked changed.
    pub fn drop_stream(&mut self, key: usize, stream_id: usize)
        requires
            old(self).wf(),
        ensures
            final(self).wf(),
            final(self).groups() == registry_drop(old(self).groups(), key, stream_id),
            final(self).changed_keys() == if final(self).groups().contains_key(key) {
                old(self).changed_keys()
            } else {
                old(self).changed_keys().remove(key)
            },
    {
        let ghost before = self.groups@;
        match self.groups.remove(&key) {
            Some(mut ids) => {
                remove_id(&mut ids, stream_id);
                if ids.len() == 0 {
                    proof {
                        assert(ids@.to_set() =~= Set::<usize>::empty());
                        assert(self.groups() =~= old(self).groups().remove(key));
                    }
                    remove_id(&mut self.changed_keys, key);
                } else {
                    proof {
                        assert(ids@.to_set().contains(ids@[0]));
                    }
                    self.groups.insert(key, ids);
                    proof {
                        assert(self.groups() =~= old(self).groups().insert(key, ids@.to_set()));
                    }
                }
            },
            None => {
                proof {
                    assert(self.groups@ =~= before);
                }
            },
        }
    }

    /// Whether stream `stream_id` is registered under `key`, so that a
    /// waker may be recorded for it.
    pub fn register(&self, key: usize, stream_id: usize) -> (r: bool)
        requires
            self.wf(),
        ensures
            r == (self.groups().contains_key(key) && self.groups()[key].contains(stream_id)),
    {
        match self.groups.get(&key) {
            Some(ids) => contains_id(ids, stream_id),
            None => false,
        }
    }

    /// Marks `key` as changed, if streams are registered under it.
    pub fn set_changed(&mut self, key: usize)
        requires
            old(self).wf(),
        ensures
            final(self).wf(),
            final(self).groups() == old(self).groups(),
            final(self).changed_keys() == if old(self).groups().contains_key(key) {
                old(self).changed_keys().insert(key)
            } else {
                old(self).changed_keys()
            },
    {
        if self.groups.contains_key(&key) {
            insert_id(&mut self.changed_keys, key);
        }
    }

    /// Whether any key is marked changed.
    pub fn changed(&self) -> (r: bool)
        requires
            self.wf(),
        ensures
            r == !self.changed_keys().is_empty(),
    {
        proof {
            if self.changed_keys@.len() > 0 {
                assert(self.changed_keys().contains(self.changed_keys@[0]));
            } else {
                assert(self.changed_keys() =~= Set::<usize>::empty());
            }
        }
        self.changed_keys.len() != 0
    }

    /// Clears the changed marks and hands back every (key, stream id) to
    /// wake: the streams under the keys that were marked.
    pub fn wake_all(&mut self) -> (woken: Vec<(usize, usize)>)
        requires
            old(self).wf(),
        ensures
            final(self).wf(),
            final(self).groups() == old(self).groups(),
            final(self).changed_keys() == Set::<usize>::empty(),
            woken@.to_set() == streams_under(old(self).groups(), old(self).changed_keys()),
            woken@.no_duplicates(),
    {
        let mut keys: Vec<usize> = Vec::new();
        std::mem::swap(&mut keys, &mut self.changed_keys);
        let ghost groups = self.groups();
        let mut woken: Vec<(usize, usize)> = Vec::new();
        let mut i: usize = 0;
        while i < keys.len()
            invariant
                self.wf(),
                self.groups() == groups,
                groups == old(self).groups(),
                keys@ == old(self).changed_keys@,
                keys@.no_duplicates(),
                i <= keys@.len(),
                woken@.no_duplicates(),
                woken@.to_set() == streams_under(groups, keys@.subrange(0, i as int).to_set()),
                forall|j: int| 0 <= j < woken@.len() ==> keys@.subrange(0, i as int).contains(#[trigger] woken@[j].0),
            decreases keys@.len() - i,
        {
            let key = keys[i];
            let ghost before = woken@;
            match self.groups.get(&key) {
                Some(ids) => {
                    let mut j: usize = 0;
                    while j < ids.len()
                        invariant
                            0 <= i < keys@.len(),
                            key == keys@[i as int],
                            keys@.no_duplicates(),
                            j <= ids@.len(),
                            ids@.no_duplicates(),
                            woken@.no_duplicates(),
                            woken@ == before + Seq::new(j as nat, |t: int| (key, ids@[t])),
                            forall|t: int| 0 <= t < before.len() ==> keys@.subrange(0, i as int).contains(#[trigger] before[t].0),
                        decreases ids@.len() - j,
                    {
                        proof {
                            assert forall|t: int| 0 <= t < woken@.len() implies woken@[t] != (key, ids@[j as int]) by {
                                if t < before.len() {
                                    assert(keys@.subrange(0, i as int).contains(before[t].0));
                                    let u = choose|u: int| 0 <= u < i && keys@.subrange(0, i as int)[u] == before[t].0;
                                    assert(keys@[u] == before[t].0);
                                } else {
                                    assert(woken@[t] == (key, ids@[t - before.len()]));
                                }
                            }
                        }
                        woken.push((key, ids[j]));
                        proof {
                            assert(woken@ =~= before + Seq::new((j + 1) as nat, |t: int| (key, ids@[t])));
                        }
                        j = j + 1;
                    }
                    proof {
                        let s = keys@.subrange(0, i as int).to_set();
                        let s2 = keys@.subrange(0, i + 1).to_set();
                        assert(keys@.subrange(0, i + 1) =~= keys@.subrange(0, i as int).push(key));
                        keys@.subrange(0, i as int).lemma_push_to_set_commute(key);
                        assert forall|p: (usize, usize)| #[trigger] woken@.to_set().contains(p) <==> streams_under(groups, s2).contains(p) by {
                            if woken@.to_set().contains(p) {
                                let t = choose|t: int| 0 <= t < woken@.len() && woken@[t] == p;
                                if t < before.len() {
                                    assert(before.to_set().contains(p));
                                } else {
                                    assert(p == (key, ids@[t - before.len()]));
                                    assert(ids@.to_set().contains(p.1));
                                }
                            }
                            if streams_under(groups, s2).contains(p) {
                                if p.0 == key {
                                    assert(groups[key].contains(p.1));
                                    assert(ids@.to_set().contains(p.1));
                                    let u = choose|u: int| 0 <= u < ids@.len() && ids@[u] == p.1;
                                    assert(woken@[before.len() + u] == p);
                                } else {
                                    assert(s.contains(p.0));
                                    assert(before.to_set().contains(p));
                                    let t = choose|t: int| 0 <= t < before.len() && before[t] == p;
                                    assert(woken@[t] == p);
                                }
                            }
                        }
                        assert(woken@.to_set() =~= streams_under(groups, s2));
                        assert forall|t: int| 0 <= t < woken@.len() implies keys@.subrange(0, i + 1).contains(#[trigger] woken@[t].0) by {
                            if t < before.len() {
                                let u = choose|u: int| 0 <= u < i && keys@.subrange(0, i as int)[u] == before[t].0;
                                assert(keys@.subrange(0, i + 1)[u] == before[t].0);
                            } else {
                                assert(keys@.subrange(0, i + 1)[i as int] == key);
                            }
                        }
                    }
                },
                None => {
                    proof {
                        assert(keys@.to_set().contains(key));
                    }
                },
            }
            i = i + 1;
        }
        proof {
            assert(keys@.subrange(0, keys@.len() as int) =~= keys@);
            assert(self.changed_keys() =~= Set::<usize>::empty());
        }
        woken
    }
}

} // verus!

verus! {

impl Default for WakerRegistry {
    /// No streams and no marks.
    fn default() -> (r: Self)
        ensures
            r.wf(),
            r.groups() == Map::<usize, Set<usize>>::empty(),
            r.changed_keys() == Set::<usize>::empty(),
    {
        Self::new()
    }
}

/// Registering a stream under a key and then dropping it leaves the
/// registry as it was, when the stream was not registered there before.
pub proof fn lemma_add_then_drop(groups: Map<usize, Set<usize>>, key: usize, stream_id: usize)
    requires
        forall|k: usize| #[trigger] groups.contains_key(k) ==> !groups[k].is_empty(),
        !(groups.contains_key(key) && groups[key].contains(stream_id)),
    ensures
        registry_drop(registry_add(groups, key, stream_id), key, stream_id) == groups,
{
    let added = registry_add(groups, key, stream_id);
    if groups.contains_key(key) {
        assert(added[key].remove(stream_id) =~= groups[key]);
        assert(registry_drop(added, key, stream_id) =~= groups);
    } else {
        assert(added[key].remove(stream_id) =~= Set::<usize>::empty());
        assert(registry_drop(added, key, stream_id) =~= groups);
    }
}

/// Moving a stream to the key it already reads leaves the registry as it was.
pub proof fn lemma_drop_then_add(groups: Map<usize, Set<usize>>, key: usize, stream_id: usize)
    requires
        groups.contains_key(key),
        groups[key].contains(stream_id),
    ensures
        registry_add(registry_drop(groups, key, stream_id), key, stream_id) == groups,
{
    let dropped = registry_drop(groups, key, stream_id);
    if groups[key].remove(stream_id).is_empty() {
        assert(groups[key] =~= set![stream_id]) by {
            assert forall|x: usize| groups[key].contains(x) implies x == stream_id by {
                if x != stream_id {
                    assert(groups[key].remove(stream_id).contains(x));
                }
            }
        }
        assert(registry_add(dropped, key, stream_id) =~= groups);
    } else {
        assert(groups[key].remove(stream_id).insert(stream_id) =~= groups[key]);
        assert(registry_add(dropped, key, stream_id) =~= groups);
    }
}

} // verus!
