//! A map from the URIs of documents to what is known of them.
use vstd::hash_map::StringHashMap;
use vstd::prelude::*;

verus! {

/// A map from URIs to values.
#[verifier::reject_recursive_types(V)]
pub struct UriMap<V> {
    map: StringHashMap<V>,
}

impl<V: View> View for UriMap<V> {
    type V = Map<Seq<char>, V::V>;

    closed spec fn view(&self) -> Map<Seq<char>, V::V> {
        self.map@.map_values(|value: V| value@)
    }
}

impl<V: View> UriMap<V> {
    /// The empty map.
    pub fn new() -> (m: UriMap<V>)
        ensures
            m@ == Map::<Seq<char>, V::V>::empty(),
    {
        let m: UriMap<V> = UriMap { map: StringHashMap::new() };
        assert(m@ =~= Map::empty());
        m
    }

    /// What the map holds for a URI.
    pub fn get(&self, uri: &str) -> (r: Option<&V>)
        ensures
            match r {
                Some(value) => self@.contains_key(uri@) && self@[uri@] == value@,
                None => !self@.contains_key(uri@),
            },
    {
        self.map.get(uri)
    }

    /// Takes a URI and its value out of the map.
    pub fn remove(&mut self, uri: &str)
        ensures
            final(self)@ == old(self)@.remove(uri@),
    {
        self.map.remove(uri);
        assert(self@ =~= old(self)@.remove(uri@));
    }

    /// Sets the value of a URI.
    pub fn insert(&mut self, uri: &str, value: V)
        ensures
            final(self)@ == old(self)@.insert(uri@, value@),
    {
        self.map.insert(uri.to_string(), value);
        assert(self@ =~= old(self)@.insert(uri@, value@));
    }

    /// Empties the map.
    pub fn clear(&mut self)
        ensures
            final(self)@ == Map::<Seq<char>, V::V>::empty(),
    {
        self.map.clear();
        assert(self@ =~= Map::empty());
    }
}

} // verus!
