use vstd::prelude::*;

use dashmap::DashMap;

verus! {

/// The concurrent map the store is built on, keyed by short key.
type LinkTable = DashMap<u32, String>;

/// The error a shorten request can fail with: the url given was empty.
#[derive(Clone, Copy, Debug, PartialEq, Eq, Structural)]
pub enum ShortenError {
    EmptyInput,
}

/// The error a redirect request can fail with: the key is not in the store.
#[derive(Clone, Copy, Debug, PartialEq, Eq, Structural)]
pub enum RedirectError {
    NotFound,
}

#[verifier::external_type_specification]
#[verifier::external_body]
#[verifier::reject_recursive_types(K)]
#[verifier::reject_recursive_types(V)]
#[verifier::reject_recursive_types(S)]
pub struct ExDashMap<K, V, S>(DashMap<K, V, S>);

/// The entries a concurrent map holds, as a mathematical map from key to url.
pub uninterp spec fn dash_view(m: LinkTable) -> Map<u32, Seq<char>>;

/// The contents of a store with no entries.
pub open spec fn no_links() -> Map<u32, Seq<char>> {
    Map::empty()
}

/// Relies on dashmap::DashMap::new: a map with no entries.
#[verifier::external_body]
fn new_map() -> (r: LinkTable)
    ensures
        dash_view(r) == no_links(),
{
    DashMap::new()
}

/// Relies on dashmap::DashMap::insert: stores the value under the key,
/// replacing whatever entry was at that key before.
#[verifier::external_body]
fn map_insert(m: &mut LinkTable, key: u32, url: String)
    ensures
        dash_view(*final(m)) == dash_view(*old(m)).insert(key, url@),
{
    m.insert(key, url);
}

/// Relies on dashmap::DashMap::get: returns the value stored under the key,
/// or nothing when the key is absent.
#[verifier::external_body]
fn map_get(m: &LinkTable, key: u32) -> (r: Option<String>)
    ensures
        r is Some <==> dash_view(*m).contains_key(key),
        r matches Some(url) ==> url@ == dash_view(*m)[key],
{
    match m.get(&key) {
        Some(entry) => Some(entry.value().clone()),
        None => None,
    }
}

/// Relies on dashmap::DashMap::len: the number of entries, summed over the
/// shards; each key lives in exactly one shard.
#[verifier::external_body]
fn map_len(m: &LinkTable) -> (n: usize)
    ensures
        dash_view(*m).dom().finite() ==> n == dash_view(*m).dom().len(),
{
    m.len()
}

/// The key/url mapping: keys are drawn at random by shorten, urls are read
/// back by redirect. Entries are never removed.
pub struct ShortLinkStore {
    map: LinkTable,
}

impl View for ShortLinkStore {
    type V = Map<u32, Seq<char>>;

    closed spec fn view(&self) -> Map<u32, Seq<char>> {
        dash_view(self.map)
    }
}

impl ShortLinkStore {
    /// Every key the store holds maps to a non-empty url, and the store is
    /// finite (it grew entry by entry from an empty map).
    pub open spec fn inv(&self) -> bool {
        &&& self@.dom().finite()
        &&& forall|k: u32| #[trigger] self@.contains_key(k) ==> self@[k].len() > 0
    }

    /// Creates an empty store.
    pub fn new() -> (s: Self)
        ensures
            s@ == no_links(),
            s.inv(),
    {
        let s = ShortLinkStore { map: new_map() };
        proof {
            assert(s@.dom() =~= Set::<u32>::empty());
        }
        s
    }

    /// Shortens a url: draws a random key, stores the url under it, and
    /// returns the key. An empty url is rejected before any key is drawn or
    /// any entry is written; a key collision silently overwrites the older
    /// entry, as the ensures states through insert.
    pub fn shorten(&mut self, url: String) -> (r: Result<u32, ShortenError>)
        requires
            old(self).inv(),
        ensures
            final(self).inv(),
            url@.len() == 0 ==> r == Err::<u32, ShortenError>(ShortenError::EmptyInput)
                && final(self)@ == old(self)@,
            url@.len() > 0 ==> (r matches Ok(key) && final(self)@ == old(self)@.insert(
                key,
                url@,
            )),
            r is Ok <==> url@.len() > 0,
    {
        if url.as_str().is_empty() {
            Err(ShortenError::EmptyInput)
        } else {
            let key: u32 = rand::random::<u32>();
            map_insert(&mut self.map, key, url);
            proof {
                assert(self@.dom() =~= old(self)@.dom().insert(key));
            }
            Ok(key)
        }
    }

    /// Resolves a key: returns the stored url unchanged when the key is
    /// present, and fails with NotFound when it is absent.
    pub fn redirect(&self, key: u32) -> (r: Result<String, RedirectError>)
        ensures
            self@.contains_key(key) ==> (r matches Ok(url) && url@ == self@[key]),
            !self@.contains_key(key) ==> r == Err::<String, RedirectError>(
                RedirectError::NotFound,
            ),
            r is Ok <==> self@.contains_key(key),
    {
        match map_get(&self.map, key) {
            Some(url) => Ok(url),
            None => Err(RedirectError::NotFound),
        }
    }

    /// The number of entries in the store.
    pub fn len(&self) -> (n: usize)
        requires
            self.inv(),
        ensures
            n == self@.dom().len(),
    {
        map_len(&self.map)
    }
}

/// Relies on rand::random, drawn through the thread-local generator; nothing
/// is promised of the value.
pub assume_specification<T>[ rand::random::<T> ]() -> (r: T)
    where
        rand::distributions::Standard: rand::distributions::Distribution<T>,
;

/// Round trip: the key a successful shorten issued resolves, in the store it
/// left behind, to exactly the url that was shortened.
pub proof fn lemma_round_trip(
    pre: Map<u32, Seq<char>>,
    post: Map<u32, Seq<char>>,
    key: u32,
    url: Seq<char>,
)
    requires
        post == pre.insert(key, url),
    ensures
        post.contains_key(key),
        post[key] == url,
{
}

/// A key that no successful shorten ever issued stays absent: the empty store
/// does not hold it, and a shorten that drew a different key does not add it.
pub proof fn lemma_absent_key_stays_absent(
    m: Map<u32, Seq<char>>,
    key: u32,
    other: u32,
    url: Seq<char>,
)
    requires
        !m.contains_key(key),
        other != key,
    ensures
        !Map::<u32, Seq<char>>::empty().contains_key(key),
        !m.insert(other, url).contains_key(key),
{
}

/// No lost update: two shortens that drew distinct keys each leave their own
/// url in place, in whichever order they reached the store.
pub proof fn lemma_no_lost_update(
    m: Map<u32, Seq<char>>,
    k1: u32,
    u1: Seq<char>,
    k2: u32,
    u2: Seq<char>,
)
    requires
        k1 != k2,
    ensures
        m.insert(k1, u1).insert(k2, u2).contains_key(k1),
        m.insert(k1, u1).insert(k2, u2).contains_key(k2),
        m.insert(k1, u1).insert(k2, u2)[k1] == u1,
        m.insert(k1, u1).insert(k2, u2)[k2] == u2,
{
}

} // verus!
