//! The document store: a concurrent map from document identity to the
//! document's current full text, mutated by the synchronization
//! notifications and read by formatting requests.

use dashmap::DashMap;
use std::collections::hash_map::RandomState;
use vstd::prelude::*;

verus! {

/// Relies on dashmap::DashMap being a map from keys to values; its contents
/// are spoken of only through `store_entries`.
#[verifier::external_type_specification]
#[verifier::external_body]
#[verifier::reject_recursive_types(K)]
#[verifier::reject_recursive_types(V)]
#[verifier::reject_recursive_types(S)]
pub struct ExDashMap<K, V, S>(DashMap<K, V, S>);

/// The entries a document map holds: each open document's identity mapped to
/// its current full text.
pub uninterp spec fn store_entries(m: &DashMap<String, String, RandomState>) -> Map<
    Seq<char>,
    Seq<char>,
>;

/// The contents of a store with no documents open.
pub open spec fn empty_entries() -> Map<Seq<char>, Seq<char>> {
    Map::empty()
}

/// Holds the text of every open document, keyed by document identity.
/// Reads and writes of distinct identities never disturb one another, and a
/// write replaces an entry's text wholesale.
pub struct DocumentStore {
    docs: DashMap<String, String, RandomState>,
}

impl View for DocumentStore {
    type V = Map<Seq<char>, Seq<char>>;

    closed spec fn view(&self) -> Map<Seq<char>, Seq<char>> {
        store_entries(&self.docs)
    }
}

/// Law: document store consistency: replacing the text under one identity
/// yields exactly that text for it and disturbs no other entry; removing an
/// identity leaves it absent, whether or not it was present, and disturbs no
/// other entry. `open`, `update` and `close` change the store only as
/// `insert` and `remove` below.
pub proof fn lemma_store_consistency(
    m: Map<Seq<char>, Seq<char>>,
    id: Seq<char>,
    text: Seq<char>,
    other: Seq<char>,
)
    ensures
        m.insert(id, text).contains_key(id),
        m.insert(id, text)[id] == text,
        id != other ==> m.insert(id, text).contains_key(other) == m.contains_key(other),
        id != other && m.contains_key(other) ==> m.insert(id, text)[other] == m[other],
        !m.remove(id).contains_key(id),
        id != other ==> m.remove(id).contains_key(other) == m.contains_key(other),
        id != other && m.contains_key(other) ==> m.remove(id)[other] == m[other],
{
}

impl DocumentStore {
    /// Relies on dashmap::DashMap::new: a freshly made map holds no entries.
    #[verifier::external_body]
    fn raw_new() -> (r: Self)
        ensures
            r@ == empty_entries(),
    {
        DocumentStore { docs: DashMap::new() }
    }

    /// Relies on dashmap::DashMap::insert: after the call the key maps to
    /// the given value and every other entry is unchanged.
    #[verifier::external_body]
    fn raw_insert(&mut self, id: &str, text: String)
        ensures
            store_entries(&final(self).docs) == store_entries(&old(self).docs).insert(id@, text@),
    {
        self.docs.insert(id.to_owned(), text);
    }

    /// Relies on dashmap::DashMap::get: returns the value under the key
    /// exactly when the map holds one.
    #[verifier::external_body]
    fn raw_get(&self, id: &str) -> (r: Option<String>)
        ensures
            r is Some <==> store_entries(&self.docs).contains_key(id@),
            r matches Some(t) ==> t@ == store_entries(&self.docs)[id@],
    {
        self.docs.get(id).map(|entry| entry.value().clone())
    }

    /// Relies on dashmap::DashMap::contains_key: true exactly when the map
    /// holds an entry under the key.
    #[verifier::external_body]
    fn raw_contains(&self, id: &str) -> (r: bool)
        ensures
            r == store_entries(&self.docs).contains_key(id@),
    {
        self.docs.contains_key(id)
    }

    /// Relies on dashmap::DashMap::remove: after the call the map holds no
    /// entry under the key and every other entry is unchanged.
    #[verifier::external_body]
    fn raw_remove(&mut self, id: &str)
        ensures
            store_entries(&final(self).docs) == store_entries(&old(self).docs).remove(id@),
    {
        self.docs.remove(id);
    }

    /// An empty store.
    pub fn new() -> (r: Self)
        ensures
            r@ == empty_entries(),
    {
        Self::raw_new()
    }

    /// Opens a document: inserts or overwrites the entry for `id`.
    pub fn open(&mut self, id: &str, text: String)
        ensures
            final(self)@ == old(self)@.insert(id@, text@),
    {
        self.raw_insert(id, text);
    }

    /// Replaces the text for `id` when the store knows it; an unknown
    /// identity is left alone, never silently created.
    pub fn update(&mut self, id: &str, text: String) -> (updated: bool)
        ensures
            updated == old(self)@.contains_key(id@),
            updated ==> final(self)@ == old(self)@.insert(id@, text@),
            !updated ==> final(self)@ == old(self)@,
    {
        if self.raw_contains(id) {
            self.raw_insert(id, text);
            true
        } else {
            false
        }
    }

    /// The current full text of `id`, or nothing when the store does not
    /// know the identity.
    pub fn get(&self, id: &str) -> (r: Option<String>)
        ensures
            r is Some <==> self@.contains_key(id@),
            r matches Some(t) ==> t@ == self@[id@],
    {
        self.raw_get(id)
    }

    /// Closes a document: removes its entry.
    pub fn close(&mut self, id: &str)
        ensures
            final(self)@ == old(self)@.remove(id@),
    {
        self.raw_remove(id);
    }
}

} // verus!
