use vstd::prelude::*;

verus! {

/// Where a topic stands in a manager's table.
pub enum TopicState<H> {
    /// The topic runs; its handle.
    Ready(H),
    /// Another caller is creating the topic; try again later.
    Creating,
    /// No one has asked for the topic.
    Absent,
}

/// The table of topics a manager runs, by topic id, and the store the
/// topics share. A slot is empty while its topic is being created.
pub struct TopicManager<S, H> {
    store: S,
    topics: Vec<(String, Option<H>)>,
}

/// The table as a map from topic id to slot.
pub open spec fn table_of<H>(entries: Seq<(String, Option<H>)>) -> Map<Seq<char>, Option<H>> {
    Map::new(
        |id: Seq<char>| exists|i: int| 0 <= i < entries.len() && entries[i].0@ == id,
        |id: Seq<char>| entries[choose|i: int| 0 <= i < entries.len() && entries[i].0@ == id].1,
    )
}

/// Whether no topic id appears twice.
pub open spec fn ids_unique<H>(entries: Seq<(String, Option<H>)>) -> bool {
    forall|i: int, j: int| 0 <= i < j < entries.len() ==> entries[i].0@ != entries[j].0@
}

proof fn lemma_table_at<H>(entries: Seq<(String, Option<H>)>, i: int)
    requires
        ids_unique(entries),
        0 <= i < entries.len(),
    ensures
        table_of(entries).contains_key(entries[i].0@),
        table_of(entries)[entries[i].0@] == entries[i].1,
{
    let id = entries[i].0@;
    assert(exists|k: int| 0 <= k < entries.len() && entries[k].0@ == id);
    let k = choose|k: int| 0 <= k < entries.len() && entries[k].0@ == id;
    if k != i {
        if k < i {
            assert(entries[k].0@ != entries[i].0@);
        } else {
            assert(entries[i].0@ != entries[k].0@);
        }
    }
}

proof fn lemma_table_push<H>(entries: Seq<(String, Option<H>)>, entry: (String, Option<H>))
    requires
        ids_unique(entries),
        !table_of(entries).contains_key(entry.0@),
    ensures
        ids_unique(entries.push(entry)),
        table_of(entries.push(entry)) == table_of(entries).insert(entry.0@, entry.1),
{
    let e2 = entries.push(entry);
    assert forall|i: int, j: int| 0 <= i < j < e2.len() implies e2[i].0@ != e2[j].0@ by {
        if j == entries.len() {
            if e2[i].0@ == entry.0@ {
                assert(entries[i].0@ == entry.0@);
            }
        } else {
            assert(entries[i].0@ != entries[j].0@);
        }
    }
    assert forall|id: Seq<char>| #[trigger] table_of(e2).contains_key(id) <==> table_of(entries).insert(entry.0@, entry.1).contains_key(id) by {
        if table_of(e2).contains_key(id) {
            let k = choose|k: int| 0 <= k < e2.len() && e2[k].0@ == id;
            if k < entries.len() {
                assert(entries[k].0@ == id);
            }
        }
        if table_of(entries).contains_key(id) {
            let k = choose|k: int| 0 <= k < entries.len() && entries[k].0@ == id;
            assert(e2[k].0@ == id);
        }
        if id == entry.0@ {
            assert(e2[entries.len() as int].0@ == id);
        }
    }
    assert forall|id: Seq<char>| #[trigger] table_of(e2).contains_key(id) implies table_of(e2)[id] == table_of(entries).insert(entry.0@, entry.1)[id] by {
        let k = choose|k: int| 0 <= k < e2.len() && e2[k].0@ == id;
        lemma_table_at(e2, k);
        if k < entries.len() {
            assert(e2[k] == entries[k]);
            lemma_table_at(entries, k);
        }
    }
    assert(table_of(e2) =~= table_of(entries).insert(entry.0@, entry.1));
}

proof fn lemma_table_set<H>(entries: Seq<(String, Option<H>)>, i: int, entry: (String, Option<H>))
    requires
        ids_unique(entries),
        0 <= i < entries.len(),
        entries[i].0@ == entry.0@,
    ensures
        ids_unique(entries.update(i, entry)),
        table_of(entries.update(i, entry)) == table_of(entries).insert(entry.0@, entry.1),
{
    let e2 = entries.update(i, entry);
    assert forall|a: int, b: int| 0 <= a < b < e2.len() implies e2[a].0@ != e2[b].0@ by {
        assert(entries[a].0@ != entries[b].0@);
    }
    lemma_table_at(entries, i);
    assert forall|id: Seq<char>| #[trigger] table_of(e2).contains_key(id) <==> table_of(entries).insert(entry.0@, entry.1).contains_key(id) by {
        if table_of(e2).contains_key(id) {
            let k = choose|k: int| 0 <= k < e2.len() && e2[k].0@ == id;
            assert(entries[k].0@ == id);
        }
        if table_of(entries).contains_key(id) {
            let k = choose|k: int| 0 <= k < entries.len() && entries[k].0@ == id;
            assert(e2[k].0@ == id);
        }
    }
    assert forall|id: Seq<char>| #[trigger] table_of(e2).contains_key(id) implies table_of(e2)[id] == table_of(entries).insert(entry.0@, entry.1)[id] by {
        let k = choose|k: int| 0 <= k < e2.len() && e2[k].0@ == id;
        lemma_table_at(e2, k);
        if k != i {
            lemma_table_at(entries, k);
        }
    }
    assert(table_of(e2) =~= table_of(entries).insert(entry.0@, entry.1));
}

proof fn lemma_table_remove<H>(entries: Seq<(String, Option<H>)>, i: int)
    requires
        ids_unique(entries),
        0 <= i < entries.len(),
    ensures
        ids_unique(entries.remove(i)),
        table_of(entries.remove(i)) == table_of(entries).remove(entries[i].0@),
{
    let e2 = entries.remove(i);
    let gone = entries[i].0@;
    assert forall|a: int, b: int| 0 <= a < b < e2.len() implies e2[a].0@ != e2[b].0@ by {
        let a2 = if a < i { a } else { a + 1 };
        let b2 = if b < i { b } else { b + 1 };
        assert(entries[a2].0@ != entries[b2].0@);
    }
    assert forall|id: Seq<char>| #[trigger] table_of(e2).contains_key(id) <==> table_of(entries).remove(gone).contains_key(id) by {
        if table_of(e2).contains_key(id) {
            let k = choose|k: int| 0 <= k < e2.len() && e2[k].0@ == id;
            let k2 = if k < i { k } else { k + 1 };
            assert(entries[k2].0@ == id);
            if k < i {
                assert(entries[k].0@ != entries[i].0@);
            } else {
                assert(entries[i].0@ != entries[k + 1].0@);
            }
        }
        if table_of(entries).remove(gone).contains_key(id) {
            let k = choose|k: int| 0 <= k < entries.len() && entries[k].0@ == id;
            assert(k != i);
            if k < i {
                assert(e2[k].0@ == id);
            } else {
                assert(e2[k - 1].0@ == id);
            }
        }
    }
    assert forall|id: Seq<char>| #[trigger] table_of(e2).contains_key(id) implies table_of(e2)[id] == table_of(entries).remove(gone)[id] by {
        let k = choose|k: int| 0 <= k < e2.len() && e2[k].0@ == id;
        lemma_table_at(e2, k);
        let k2 = if k < i { k } else { k + 1 };
        assert(e2[k] == entries[k2]);
        lemma_table_at(entries, k2);
    }
    assert(table_of(e2) =~= table_of(entries).remove(gone));
}

impl<S, H> TopicManager<S, H> {
    /// The store the topics share.
    pub closed spec fn spec_store(&self) -> S {
        self.store
    }

    /// Each topic id's slot: the handle, or none while being created.
    pub closed spec fn topics(&self) -> Map<Seq<char>, Option<H>> {
        table_of(self.topics@)
    }

    pub closed spec fn wf(&self) -> bool {
        ids_unique(self.topics@)
    }

    pub fn new(store: S) -> (r: Self)
        ensures
            r.wf(),
            r.spec_store() == store,
            r.topics() == Map::<Seq<char>, Option<H>>::empty(),
    {
        let r = TopicManager { store, topics: Vec::new() };
        proof {
            assert(r.topics() =~= Map::<Seq<char>, Option<H>>::empty());
        }
        r
    }

    pub fn store(&self) -> (r: &S)
        ensures
            *r == self.spec_store(),
    {
        &self.store
    }

    /// Where the slot of `topic_id` sits in the table, if anywhere.
    fn position(&self, topic_id: &String) -> (r: Option<usize>)
        requires
            self.wf(),
        ensures
            match r {
                Some(i) => i < self.topics@.len() && self.topics@[i as int].0@ == topic_id@,
                None => !self.topics().contains_key(topic_id@),
            },
    {
        let mut i: usize = 0;
        while i < self.topics.len()
            invariant
                i <= self.topics@.len(),
                forall|j: int| 0 <= j < i ==> self.topics@[j].0@ != topic_id@,
            decreases self.topics@.len() - i,
        {
            if self.topics[i].0 == *topic_id {
                return Some(i);
            }
            i = i + 1;
        }
        None
    }

    /// Where the topic `topic_id` stands: running, being created, or absent.
    pub fn state(&self, topic_id: &String) -> (r: TopicState<&H>)
        requires
            self.wf(),
        ensures
            match r {
                TopicState::Ready(h) => self.topics().contains_key(topic_id@) && self.topics()[topic_id@] == Some(*h),
                TopicState::Creating => self.topics().contains_key(topic_id@) && self.topics()[topic_id@] is None,
                TopicState::Absent => !self.topics().contains_key(topic_id@),
            },
    {
        match self.position(topic_id) {
            Some(i) => {
                proof {
                    lemma_table_at(self.topics@, i as int);
                }
                match &self.topics[i].1 {
                    Some(h) => TopicState::Ready(h),
                    None => TopicState::Creating,
                }
            },
            None => TopicState::Absent,
        }
    }

    /// Takes the slot of an absent topic for its creator, so that other
    /// callers wait until it is published. Says whether the slot was free.
    pub fn reserve(&mut self, topic_id: String) -> (r: bool)
        requires
            old(self).wf(),
        ensures
            final(self).wf(),
            final(self).spec_store() == old(self).spec_store(),
            r == !old(self).topics().contains_key(topic_id@),
            r ==> final(self).topics() == old(self).topics().insert(topic_id@, None),
            !r ==> final(self).topics() == old(self).topics(),
    {
        match self.position(&topic_id) {
            Some(_) => false,
            None => {
                let ghost before = self.topics@;
                let ghost id = topic_id@;
                self.topics.push((topic_id, None));
                proof {
                    lemma_table_push(before, self.topics@.last());
                    assert(self.topics@ == before.push(self.topics@.last()));
                }
                true
            },
        }
    }

    /// Puts the handle of a created topic in its slot.
    pub fn publish(&mut self, topic_id: String, handle: H)
        requires
            old(self).wf(),
        ensures
            final(self).wf(),
            final(self).spec_store() == old(self).spec_store(),
            final(self).topics() == old(self).topics().insert(topic_id@, Some(handle)),
    {
        let ghost before = self.topics@;
        match self.position(&topic_id) {
            Some(i) => {
                self.topics.set(i, (topic_id, Some(handle)));
                proof {
                    lemma_table_set(before, i as int, self.topics@[i as int]);
                    assert(self.topics@ == before.update(i as int, self.topics@[i as int]));
                }
            },
            None => {
                self.topics.push((topic_id, Some(handle)));
                proof {
                    lemma_table_push(before, self.topics@.last());
                    assert(self.topics@ == before.push(self.topics@.last()));
                }
            },
        }
    }

    /// Takes the topic `topic_id` out of the table, handing back its slot.
    pub fn remove(&mut self, topic_id: &String) -> (r: Option<Option<H>>)
        requires
            old(self).wf(),
        ensures
            final(self).wf(),
            final(self).spec_store() == old(self).spec_store(),
            final(self).topics() == old(self).topics().remove(topic_id@),
            r == if old(self).topics().contains_key(topic_id@) {
                Some(old(self).topics()[topic_id@])
            } else {
                None::<Option<H>>
            },
    {
        let ghost before = self.topics@;
        match self.position(topic_id) {
            Some(i) => {
                proof {
                    lemma_table_at(before, i as int);
                    lemma_table_remove(before, i as int);
                }
                let (_, slot) = self.topics.remove(i);
                Some(slot)
            },
            None => {
                proof {
                    assert(self.topics() =~= old(self).topics().remove(topic_id@));
                }
                None
            },
        }
    }

    /// The ids of the topics in the table, each once.
    pub fn topic_ids(&self) -> (r: Vec<String>)
        requires
            self.wf(),
        ensures
            forall|i: int, j: int| 0 <= i < j < r@.len() ==> r@[i]@ != r@[j]@,
            forall|id: Seq<char>| self.topics().contains_key(id) <==> exists|i: int| 0 <= i < r@.len() && #[trigger] r@[i]@ == id,
    {
        let mut r: Vec<String> = Vec::new();
        let mut i: usize = 0;
        while i < self.topics.len()
            invariant
                i <= self.topics@.len(),
                r@.len() == i,
                forall|j: int| 0 <= j < i ==> #[trigger] r@[j]@ == self.topics@[j].0@,
            decreases self.topics@.len() - i,
        {
            r.push(self.topics[i].0.clone());
            i = i + 1;
        }
        proof {
            assert forall|a: int, b: int| 0 <= a < b < r@.len() implies r@[a]@ != r@[b]@ by {
                assert(self.topics@[a].0@ != self.topics@[b].0@);
            }
            assert forall|id: Seq<char>| self.topics().contains_key(id) implies exists|i: int| 0 <= i < r@.len() && #[trigger] r@[i]@ == id by {
                let k = choose|k: int| 0 <= k < self.topics@.len() && self.topics@[k].0@ == id;
                assert(r@[k]@ == id);
            }
            assert forall|id: Seq<char>| (exists|i: int| 0 <= i < r@.len() && #[trigger] r@[i]@ == id) implies self.topics().contains_key(id) by {
                let k = choose|k: int| 0 <= k < r@.len() && r@[k]@ == id;
                assert(self.topics@[k].0@ == id);
            }
        }
        r
    }
}

} // verus!
