use vstd::prelude::*;

verus! {

/// A podcast as a discovery backend lists it.
#[derive(Debug, Clone)]
pub struct Podcast {
    /// Identifier of the backend that serves the feed.
    pub backend: String,
    /// Stable identity of the podcast.
    pub feed_url: String,
    pub title: String,
    pub description: String,
}

pub struct PodcastView {
    pub backend: Seq<char>,
    pub feed_url: Seq<char>,
    pub title: Seq<char>,
    pub description: Seq<char>,
}

impl View for Podcast {
    type V = PodcastView;

    open spec fn view(&self) -> PodcastView {
        PodcastView {
            backend: self.backend@,
            feed_url: self.feed_url@,
            title: self.title@,
            description: self.description@,
        }
    }
}

/// One playable episode of a feed.
#[derive(Debug, Clone)]
pub struct Episode {
    /// Display name of the podcast the episode belongs to.
    pub podcast: String,
    pub title: String,
    pub description: String,
    /// Publication instant, in nanoseconds since the Unix epoch.
    pub published_at: i64,
    /// Stable identity of the episode.
    pub audio_url: String,
}

pub struct EpisodeView {
    pub podcast: Seq<char>,
    pub title: Seq<char>,
    pub description: Seq<char>,
    pub published_at: i64,
    pub audio_url: Seq<char>,
}

impl View for Episode {
    type V = EpisodeView;

    open spec fn view(&self) -> EpisodeView {
        EpisodeView {
            podcast: self.podcast@,
            title: self.title@,
            description: self.description@,
            published_at: self.published_at,
            audio_url: self.audio_url@,
        }
    }
}

pub open spec fn podcast_views(s: Seq<Podcast>) -> Seq<PodcastView> {
    s.map_values(|p: Podcast| p@)
}

pub open spec fn episode_views(s: Seq<Episode>) -> Seq<EpisodeView> {
    s.map_values(|e: Episode| e@)
}

impl Podcast {
    /// A field-by-field copy.
    pub fn duplicate(&self) -> (r: Podcast)
        ensures
            r@ == self@,
    {
        Podcast {
            backend: self.backend.clone(),
            feed_url: self.feed_url.clone(),
            title: self.title.clone(),
            description: self.description.clone(),
        }
    }
}

impl Episode {
    /// A field-by-field copy.
    pub fn duplicate(&self) -> (r: Episode)
        ensures
            r@ == self@,
    {
        Episode {
            podcast: self.podcast.clone(),
            title: self.title.clone(),
            description: self.description.clone(),
            published_at: self.published_at,
            audio_url: self.audio_url.clone(),
        }
    }
}

/// A copy of a list of episodes, element by element.
pub fn copy_episodes(v: &Vec<Episode>) -> (r: Vec<Episode>)
    ensures
        episode_views(r@) == episode_views(v@),
{
    let mut r: Vec<Episode> = Vec::new();
    let mut i: usize = 0;
    while i < v.len()
        invariant
            i <= v.len(),
            r.len() == i,
            forall|k: int| 0 <= k < i ==> r@[k]@ == v@[k]@,
        decreases v.len() - i,
    {
        r.push(v[i].duplicate());
        i = i + 1;
    }
    assert(episode_views(r@) =~= episode_views(v@));
    r
}

/// The failures that the core reports.
#[derive(Debug, Clone, PartialEq, Eq)]
pub enum DomError {
    /// A backend could not fetch or parse a feed; retried on the next call.
    Fetch(String),
    /// No backend is registered under this identifier.
    UnknownBackend(String),
    /// The durable store failed.
    Storage(String),
}

} // verus!
