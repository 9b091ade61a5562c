use vstd::prelude::*;

use crate::storage::Storage;
use crate::storages::manager::{registry_add, registry_drop, StorageManager};

verus! {

/// What one poll of a topic's source stream gave.
pub enum SourcePoll {
    /// The source stored a value.
    Item,
    /// The source failed.
    Error,
    /// The source has ended.
    End,
    /// The source has nothing now.
    Pending,
}

/// What a reader does after one poll of the source.
pub enum SourceStep {
    /// Poll the source again.
    Again,
    /// Hand the source's error to the reader.
    Error,
    /// Tell the reader the topic has ended.
    End,
    /// Stop polling the source.
    Done,
}

/// What a reader does after a round of polling the source.
pub enum ReadStep {
    /// Values were stored: look in the storage again.
    Retry,
    /// Record the reader's waker and wait.
    Wait,
}

/// The step after one poll of the source: values and nothing-now go on
/// (the latter ends the round), an error or the end is handed out.
pub fn on_source(poll: SourcePoll) -> (r: SourceStep)
    ensures
        poll is Item <==> r is Again,
        poll is Error <==> r is Error,
        poll is End <==> r is End,
        poll is Pending <==> r is Done,
{
    match poll {
        SourcePoll::Item => SourceStep::Again,
        SourcePoll::Error => SourceStep::Error,
        SourcePoll::End => SourceStep::End,
        SourcePoll::Pending => SourceStep::Done,
    }
}

/// The step after a round of polling: a round that stored a value sends
/// the reader back to the storage; one that stored nothing, or that could
/// not run because another reader was polling, makes it wait.
pub fn after_round(stored: bool) -> (r: ReadStep)
    ensures
        stored <==> r is Retry,
{
    if stored {
        ReadStep::Retry
    } else {
        ReadStep::Wait
    }
}

/// What the readers of one topic share: the count of stream ids handed out.
pub struct TokenShared {
    next_stream_id: usize,
}

impl TokenShared {
    /// How many stream ids were handed out after the first reader's 0.
    pub closed spec fn issued(&self) -> usize {
        self.next_stream_id
    }

    pub fn new() -> (r: Self)
        ensures
            r.issued() == 0,
    {
        TokenShared { next_stream_id: 0 }
    }

    /// The next stream id: one past the last.
    pub fn new_stream_id(&mut self) -> (r: usize)
        requires
            old(self).issued() < usize::MAX,
        ensures
            r == old(self).issued() + 1,
            final(self).issued() == r,
    {
        self.next_stream_id = self.next_stream_id + 1;
        self.next_stream_id
    }
}

/// One reader of a topic: the key it reads, its cursor in that key's
/// storage, and its stream id.
pub struct TopicToken {
    stream_key: usize,
    cursor: usize,
    stream_id: usize,
}

impl TopicToken {
    pub closed spec fn key(&self) -> usize {
        self.stream_key
    }

    pub closed spec fn spec_cursor(&self) -> usize {
        self.cursor
    }

    pub closed spec fn stream_id(&self) -> usize {
        self.stream_id
    }

    /// The key this reader reads.
    pub fn current_key(&self) -> (r: usize)
        ensures
            r == self.key(),
    {
        self.stream_key
    }

    /// This reader's stream id.
    pub fn id(&self) -> (r: usize)
        ensures
            r == self.stream_id(),
    {
        self.stream_id
    }

    /// The reader that creates a topic: key 0, cursor 0, stream id 0.
    pub fn first() -> (r: Self)
        ensures
            r.key() == 0,
            r.spec_cursor() == 0,
            r.stream_id() == 0,
    {
        TopicToken { stream_key: 0, cursor: 0, stream_id: 0 }
    }

    /// A further reader of the same key: it starts from the storage's
    /// latest value, gets the next stream id, and is registered.
    pub fn fork<V, S: Storage<V>>(&self, shared: &mut TokenShared, storage: &mut StorageManager<V, S>) -> (r: Self)
        requires
            old(shared).issued() < usize::MAX,
            old(storage).wf(),
        ensures
            final(storage).wf(),
            r.key() == self.key(),
            r.stream_id() == old(shared).issued() + 1,
            final(shared).issued() == r.stream_id(),
            r.spec_cursor() == if old(storage).storages().contains_key(self.key()) {
                old(storage).storages()[self.key()].prev_cursor()
            } else {
                0
            },
            final(storage).registry() == registry_add(old(storage).registry(), self.key(), r.stream_id()),
            final(storage).storages() == old(storage).storages(),
            final(storage).template() == old(storage).template(),
    {
        let cursor = storage.get_prev_cursor(self.stream_key);
        let stream_id = shared.new_stream_id();
        storage.new_stream(self.stream_key, stream_id);
        TopicToken { stream_key: self.stream_key, cursor, stream_id }
    }

    /// Moves this reader to `key`, starting from that key's latest value.
    pub fn with_key<V, S: Storage<V>>(self, storage: &mut StorageManager<V, S>, key: usize) -> (r: Self)
        requires
            old(storage).wf(),
        ensures
            final(storage).wf(),
            r.key() == key,
            r.stream_id() == self.stream_id(),
            r.spec_cursor() == if old(storage).storages().contains_key(key) {
                old(storage).storages()[key].prev_cursor()
            } else {
                0
            },
            final(storage).registry() == registry_add(
                registry_drop(old(storage).registry(), self.key(), self.stream_id()),
                key,
                self.stream_id(),
            ),
            final(storage).storages() == old(storage).storages(),
            final(storage).template() == old(storage).template(),
    {
        let cursor = storage.with_key(self.stream_key, key, self.stream_id);
        TopicToken { stream_key: key, cursor, stream_id: self.stream_id }
    }

    /// The first step of a poll: the value under the cursor, if the
    /// storage has one, moving the cursor past it.
    pub fn next_item<'a, V, S: Storage<V>>(&mut self, storage: &'a StorageManager<V, S>) -> (r: Option<&'a V>)
        requires
            storage.storages().contains_key(old(self).key()) ==> storage.storages()[old(self).key()].readable(
                old(self).spec_cursor(),
            ),
        ensures
            final(self).key() == old(self).key(),
            final(self).stream_id() == old(self).stream_id(),
            ({
                let item = if storage.storages().contains_key(old(self).key()) {
                    storage.storages()[old(self).key()].item_at(old(self).spec_cursor())
                } else {
                    None
                };
                match item {
                    Some((v, next)) => r == Some(&v) && final(self).spec_cursor() == next,
                    None => r is None && final(self).spec_cursor() == old(self).spec_cursor(),
                }
            }),
    {
        match storage.get_item(self.stream_key, self.cursor) {
            Some((item, cursor)) => {
                self.cursor = cursor;
                Some(item)
            },
            None => None,
        }
    }

    /// Whether this reader's stream is registered, so its waker may be
    /// recorded before it waits.
    pub fn register<V, S: Storage<V>>(&self, storage: &StorageManager<V, S>) -> (r: bool)
        ensures
            r == (storage.registry().contains_key(self.key()) && storage.registry()[self.key()].contains(self.stream_id())),
    {
        storage.register(self.stream_key, self.stream_id)
    }

    /// How many values lie ahead of the cursor, with no upper bound.
    pub fn size_hint<V, S: Storage<V>>(&self, storage: &StorageManager<V, S>) -> (r: (usize, Option<usize>))
        requires
            storage.storages().contains_key(self.key()) ==> storage.storages()[self.key()].sizeable(self.spec_cursor()),
        ensures
            r.0 == if storage.storages().contains_key(self.key()) {
                storage.storages()[self.key()].size_at(self.spec_cursor())
            } else {
                0
            },
            r.1 is None,
    {
        (storage.size_hint_with(self.stream_key, self.cursor), None)
    }

    /// Whether nothing lies ahead of the cursor.
    pub fn is_empty<V, S: Storage<V>>(&self, storage: &StorageManager<V, S>) -> (r: bool)
        requires
            storage.storages().contains_key(self.key()) ==> storage.storages()[self.key()].sizeable(self.spec_cursor()),
        ensures
            r == ((if storage.storages().contains_key(self.key()) {
                storage.storages()[self.key()].size_at(self.spec_cursor())
            } else {
                0
            }) == 0),
    {
        self.size_hint(storage).0 == 0
    }

    /// Drops this reader: its stream leaves the registry. `holders` counts
    /// the handles on the topic's shared state, this one and the manager's
    /// included; says whether the topic is to leave the manager's table,
    /// which is so when only those two remain.
    pub fn release<V, S: Storage<V>>(self, storage: &mut StorageManager<V, S>, holders: usize) -> (r: bool)
        requires
            old(storage).wf(),
        ensures
            final(storage).wf(),
            final(storage).registry() == registry_drop(old(storage).registry(), self.key(), self.stream_id()),
            final(storage).storages() == old(storage).storages(),
            final(storage).template() == old(storage).template(),
            r == (holders == 2),
    {
        storage.drop_stream(self.stream_key, self.stream_id);
        holders == 2
    }
}

} // verus!
