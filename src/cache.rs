use vstd::prelude::*;
use crate::model::{Episode, EpisodeView, DomError, episode_views, copy_episodes};
use crate::backend::{Backends, FetchingBackend};

verus! {

#[verifier::external_type_specification]
#[verifier::external_body]
#[verifier::reject_recursive_types(K)]
#[verifier::reject_recursive_types(V)]
#[verifier::reject_recursive_types(S)]
pub struct ExDashMap<K, V, S>(dashmap::DashMap<K, V, S>);

/// Feed URL to the episode list fetched for it.
pub type FeedMap = dashmap::DashMap<String, Vec<Episode>>;

/// The snapshots that a feed map holds, by feed URL.
pub uninterp spec fn cached_feeds(m: FeedMap) -> Map<Seq<char>, Seq<EpisodeView>>;

/// The contents of an empty cache.
pub open spec fn no_feeds() -> Map<Seq<char>, Seq<EpisodeView>> {
    Map::empty()
}

/// Relies on dashmap::DashMap::new: an empty map.
#[verifier::external_body]
fn feed_map_new() -> (r: FeedMap)
    ensures
        cached_feeds(r) == no_feeds(),
{
    dashmap::DashMap::new()
}

/// Relies on dashmap::DashMap::get: a copy of the value stored under the key.
#[verifier::external_body]
fn feed_map_get(m: &FeedMap, url: &str) -> (r: Option<Vec<Episode>>)
    ensures
        r is Some <==> cached_feeds(*m).contains_key(url@),
        r matches Some(v) ==> episode_views(v@) == cached_feeds(*m)[url@],
{
    m.get(url).map(|e| e.value().clone())
}

/// Relies on dashmap::DashMap::insert: sets the value stored under the key.
#[verifier::external_body]
fn feed_map_insert(m: &mut FeedMap, url: String, episodes: Vec<Episode>)
    ensures
        cached_feeds(*final(m)) == cached_feeds(*old(m)).insert(url@, episode_views(episodes@)),
{
    m.insert(url, episodes);
}

/// Relies on dashmap::DashMap::clear: drops every entry.
#[verifier::external_body]
fn feed_map_clear(m: &mut FeedMap)
    ensures
        cached_feeds(*final(m)) == no_feeds(),
{
    m.clear();
}

/// Episode lists already fetched, by feed URL, kept until wiped.
///
/// Callers that share one cache between threads hold it behind a lock for the
/// length of each call; `get_or_fetch` then fetches a given URL at most once
/// until it fails or the cache is wiped.
pub struct FeedCache {
    feeds: FeedMap,
}

impl View for FeedCache {
    type V = Map<Seq<char>, Seq<EpisodeView>>;

    closed spec fn view(&self) -> Map<Seq<char>, Seq<EpisodeView>> {
        cached_feeds(self.feeds)
    }
}

impl FeedCache {
    /// An empty cache.
    pub fn new() -> (r: FeedCache)
        ensures
            r@ == no_feeds(),
    {
        FeedCache { feeds: feed_map_new() }
    }

    /// A copy of the snapshot stored for `url`, if any.
    pub fn lookup(&self, url: &str) -> (r: Option<Vec<Episode>>)
        ensures
            r is Some <==> self@.contains_key(url@),
            r matches Some(v) ==> episode_views(v@) == self@[url@],
    {
        feed_map_get(&self.feeds, url)
    }

    /// Stores the snapshot for `url`, replacing any earlier one.
    pub fn store(&mut self, url: &str, episodes: &Vec<Episode>)
        ensures
            final(self)@ == old(self)@.insert(url@, episode_views(episodes@)),
    {
        feed_map_insert(&mut self.feeds, url.to_string(), copy_episodes(episodes));
    }

    /// Drops every snapshot.
    pub fn wipe(&mut self)
        ensures
            final(self)@ == no_feeds(),
    {
        feed_map_clear(&mut self.feeds);
    }

    /// The episodes of `url`: the stored snapshot when there is one, else what
    /// the backend registered under `backend` fetches, stored when it succeeds.
    pub fn get_or_fetch<R: FetchingBackend>(&mut self, backends: &Backends<R>, backend: &str, url: &str) -> (r: Result<Vec<Episode>, DomError>)
        ensures
            old(self)@.contains_key(url@) ==> (r matches Ok(v) && episode_views(v@) == old(self)@[url@]),
            old(self)@.contains_key(url@) ==> final(self)@ == old(self)@,
            !old(self)@.contains_key(url@) ==> match r {
                Ok(v) => final(self)@ == old(self)@.insert(url@, episode_views(v@)),
                Err(_) => final(self)@ == old(self)@,
            },
            !old(self)@.contains_key(url@) && backend@ != crate::backend::rss_id() ==>
                (r matches Err(DomError::UnknownBackend(n)) && n@ == backend@),
    {
        match self.lookup(url) {
            Some(v) => Ok(v),
            None => {
                let b = match backends.get_backend(backend) {
                    Ok(b) => b,
                    Err(e) => return Err(e),
                };
                match b.fetch_feed(url) {
                    Ok(v) => {
                        self.store(url, &v);
                        Ok(v)
                    },
                    Err(e) => Err(e),
                }
            },
        }
    }
}

} // verus!
