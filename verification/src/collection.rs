//! A collection: documents by key.

use crate::document::Document;
use vstd::hash_map::StringHashMap;
use vstd::prelude::*;

verus! {

/// Documents by key. No key occurs twice; no order is kept.
pub struct Collection {
    data: StringHashMap<Document>,
}

impl View for Collection {
    type V = Map<Seq<char>, Seq<char>>;

    closed spec fn view(&self) -> Map<Seq<char>, Seq<char>> {
        self.data@.map_values(|document: Document| document@)
    }
}

impl Collection {
    /// An empty collection.
    pub fn new() -> (collection: Collection)
        ensures
            collection@ == Map::<Seq<char>, Seq<char>>::empty(),
    {
        let collection = Collection { data: StringHashMap::new() };
        assert(collection@ =~= Map::<Seq<char>, Seq<char>>::empty());
        collection
    }

    /// Stores `value` under `key`, in place of what was there.
    pub fn put(&mut self, key: String, value: Document)
        ensures
            final(self)@ == old(self)@.insert(key@, value@),
    {
        self.data.insert(key, value);
        assert(self@ =~= old(self)@.insert(key@, value@));
    }

    /// The document under `key`, if there is one.
    pub fn get(&self, key: &str) -> (found: Option<&Document>)
        ensures
            match found {
                Some(document) => self@.contains_key(key@) && document@ == self@[key@],
                None => !self@.contains_key(key@),
            },
    {
        self.data.get(key)
    }

    /// Drops `key` and its document; does nothing where the key is absent.
    pub fn delete(&mut self, key: String)
        ensures
            final(self)@ == old(self)@.remove(key@),
    {
        self.data.remove(key.as_str());
        assert(self@ =~= old(self)@.remove(key@));
    }

    /// Whether the collection holds no document.
    pub fn is_empty(&self) -> (empty: bool)
        ensures
            empty <==> self@ == Map::<Seq<char>, Seq<char>>::empty(),
    {
        let empty = self.data.is_empty();
        proof {
            if empty {
                assert(self@ =~= Map::<Seq<char>, Seq<char>>::empty());
            } else {
                let key = choose|key: Seq<char>| self.data@.dom().contains(key);
                assert(self@.contains_key(key));
            }
        }
        empty
    }
}

} // verus!
