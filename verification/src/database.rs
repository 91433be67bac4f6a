//! The store: collections by name.
//!
//! The collections stand in a vector; an index leads from each name to the
//! place of its collection, so that a collection is found, changed and
//! dropped in constant time.

use crate::collection::Collection;
use crate::document::Document;
use vstd::hash_map::StringHashMap;
use vstd::prelude::*;

verus! {

/// A collection and the name it goes by.
struct Slot {
    name: String,
    collection: Collection,
}

/// Collections by name. No name occurs twice; no order is kept.
pub struct Database {
    index: StringHashMap<usize>,
    slots: Vec<Slot>,
}

/// What a store holds: for each collection, by name, its documents by key.
pub type StoreView = Map<Seq<char>, Map<Seq<char>, Seq<char>>>;

/// The store without collections.
pub open spec fn empty_store() -> StoreView {
    Map::empty()
}

/// The store once the collection `name` was created: unchanged where there
/// is one already.
pub open spec fn store_create(store: StoreView, name: Seq<char>) -> StoreView {
    if store.contains_key(name) {
        store
    } else {
        store.insert(name, Map::empty())
    }
}

/// The store once `value` was put under `key` in `collection`, which is
/// created where it is absent.
pub open spec fn store_put(
    store: StoreView,
    collection: Seq<char>,
    key: Seq<char>,
    value: Seq<char>,
) -> StoreView {
    store.insert(collection, store_create(store, collection)[collection].insert(key, value))
}

/// The document under `key` in `collection`, if both are there.
pub open spec fn store_get(store: StoreView, collection: Seq<char>, key: Seq<char>) -> Option<
    Seq<char>,
> {
    if store.contains_key(collection) && store[collection].contains_key(key) {
        Some(store[collection][key])
    } else {
        None
    }
}

/// The store once `key` was dropped from `collection`: unchanged where
/// either is absent.
pub open spec fn store_delete(store: StoreView, collection: Seq<char>, key: Seq<char>) -> StoreView {
    if store.contains_key(collection) {
        store.insert(collection, store[collection].remove(key))
    } else {
        store
    }
}

/// Creating a collection twice is creating it once, and a collection that
/// is there keeps what it holds.
pub proof fn law_create_is_idempotent(store: StoreView, name: Seq<char>)
    ensures
        store_create(store_create(store, name), name) == store_create(store, name),
        store.contains_key(name) ==> store_create(store, name) == store,
{
}

/// What was put is what is got, and a put touches no other place.
pub proof fn law_get_after_put(
    store: StoreView,
    collection: Seq<char>,
    key: Seq<char>,
    value: Seq<char>,
    other_collection: Seq<char>,
    other_key: Seq<char>,
)
    ensures
        store_get(store_put(store, collection, key, value), collection, key) == Some(value),
        (other_collection != collection || other_key != key) ==> store_get(
            store_put(store, collection, key, value),
            other_collection,
            other_key,
        ) == store_get(store, other_collection, other_key),
{
}

/// What was deleted is got no more, and a delete touches no other place.
pub proof fn law_get_after_delete(
    store: StoreView,
    collection: Seq<char>,
    key: Seq<char>,
    other_collection: Seq<char>,
    other_key: Seq<char>,
)
    ensures
        store_get(store_delete(store, collection, key), collection, key) is None,
        (other_collection != collection || other_key != key) ==> store_get(
            store_delete(store, collection, key),
            other_collection,
            other_key,
        ) == store_get(store, other_collection, other_key),
{
}

impl View for Database {
    type V = StoreView;

    closed spec fn view(&self) -> StoreView {
        Map::new(
            |name: Seq<char>| self.index@.contains_key(name),
            |name: Seq<char>| self.slots@[self.index@[name] as int].collection@,
        )
    }
}

impl Database {
    /// The index and the vector agree: each name leads to the place that
    /// carries it, and each place is led to by its name. Every store that
    /// this module hands out is well formed.
    pub closed spec fn wf(&self) -> bool {
        &&& forall|name: Seq<char>| #[trigger]
            self.index@.contains_key(name) ==> self.index@[name] < self.slots@.len()
                && self.slots@[self.index@[name] as int].name@ == name
        &&& forall|place: int|
            0 <= place < self.slots@.len() ==> self.index@.contains_key(
                #[trigger] self.slots@[place].name@,
            ) && self.index@[self.slots@[place].name@] == place
    }

    /// A store without collections.
    pub fn initialize() -> (database: Database)
        ensures
            database.wf(),
            database@ == empty_store(),
    {
        let database = Database { index: StringHashMap::new(), slots: Vec::new() };
        assert(database@ =~= empty_store());
        database
    }

    /// The place of the collection `name`, if there is one.
    fn place(&self, name: &str) -> (found: Option<usize>)
        requires
            self.wf(),
        ensures
            match found {
                Some(place) => self.index@.contains_key(name@) && self.index@[name@] == place
                    && place < self.slots@.len() && self.slots@[place as int].name@ == name@,
                None => !self.index@.contains_key(name@),
            },
    {
        match self.index.get(name) {
            Some(place) => Some(*place),
            None => None,
        }
    }

    /// Creates the collection `name`, empty, unless there is one already.
    pub fn create_collection(&mut self, name: String)
        requires
            old(self).wf(),
        ensures
            final(self).wf(),
            final(self)@ == store_create(old(self)@, name@),
    {
        if !self.index.contains_key(name.as_str()) {
            let place = self.slots.len();
            self.index.insert(name.clone(), place);
            self.slots.push(Slot { name, collection: Collection::new() });
            assert(self@ =~= old(self)@.insert(name@, Map::empty()));
        } else {
            assert(self@ =~= old(self)@);
        }
    }

    /// Drops the collection `name` with all it holds; does nothing where
    /// there is none.
    pub fn delete_collection(&mut self, name: &str)
        requires
            old(self).wf(),
        ensures
            final(self).wf(),
            final(self)@ == old(self)@.remove(name@),
    {
        match self.place(name) {
            None => {
                assert(self@ =~= old(self)@.remove(name@));
            },
            Some(place) => {
                let last = self.slots.len() - 1;
                self.slots.swap_remove(place);
                self.index.remove(name);
                if place != last {
                    let moved = self.slots[place].name.clone();
                    self.index.insert(moved, place);
                }
                assert(self@ =~= old(self)@.remove(name@));
            },
        }
    }

    /// Drops the collection `name` if it is there and empty, and says
    /// whether it did.
    pub fn safe_delete_collection(&mut self, name: &str) -> (deleted: bool)
        requires
            old(self).wf(),
        ensures
            final(self).wf(),
            deleted <==> old(self)@.contains_key(name@) && old(self)@[name@] == Map::<
                Seq<char>,
                Seq<char>,
            >::empty(),
            final(self)@ == if deleted {
                old(self)@.remove(name@)
            } else {
                old(self)@
            },
    {
        match self.place(name) {
            None => false,
            Some(place) => {
                if self.slots[place].collection.is_empty() {
                    self.delete_collection(name);
                    true
                } else {
                    false
                }
            },
        }
    }

    /// Stores `value` under `key` in the collection `collection`, which is
    /// created where it is absent.
    pub fn put(&mut self, collection: String, key: String, value: Document)
        requires
            old(self).wf(),
        ensures
            final(self).wf(),
            final(self)@ == store_put(old(self)@, collection@, key@, value@),
    {
        let place = match self.place(collection.as_str()) {
            Some(place) => place,
            None => {
                let place = self.slots.len();
                self.index.insert(collection.clone(), place);
                self.slots.push(Slot { name: collection, collection: Collection::new() });
                place
            },
        };
        self.slots[place].collection.put(key, value);
        assert(self@ =~= store_put(old(self)@, collection@, key@, value@));
    }

    /// The document under `key` in the collection `collection`, if both are
    /// there.
    pub fn get(&self, collection: &str, key: &str) -> (found: Option<&Document>)
        requires
            self.wf(),
        ensures
            match found {
                Some(document) => store_get(self@, collection@, key@) == Some(document@),
                None => store_get(self@, collection@, key@) is None,
            },
    {
        match self.place(collection) {
            Some(place) => self.slots[place].collection.get(key),
            None => None,
        }
    }

    /// Drops `key` from the collection `collection`; does nothing where
    /// either is absent.
    pub fn delete(&mut self, collection: String, key: String)
        requires
            old(self).wf(),
        ensures
            final(self).wf(),
            final(self)@ == store_delete(old(self)@, collection@, key@),
    {
        match self.place(collection.as_str()) {
            Some(place) => {
                self.slots[place].collection.delete(key);
                assert(self@ =~= old(self)@.insert(
                    collection@,
                    old(self)@[collection@].remove(key@),
                ));
            },
            None => {},
        }
    }
}

} // verus!
