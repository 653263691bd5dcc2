use vstd::prelude::*;
use crate::model::{Podcast, PodcastView, DomError, podcast_views};
use crate::text::{contains_text, is_substring};

verus! {

/// A podcast answers the query when its title or its description holds it.
pub open spec fn podcast_matches(p: PodcastView, query: Seq<char>) -> bool {
    is_substring(p.title, query) || is_substring(p.description, query)
}

pub open spec fn search_result(found: Seq<PodcastView>, query: Seq<char>) -> Seq<PodcastView> {
    found.filter(|p: PodcastView| podcast_matches(p, query))
}

/// The podcasts of `found` that answer `query`, in their order.
pub fn filter_podcasts(found: &Vec<Podcast>, query: &str) -> (r: Vec<Podcast>)
    ensures
        podcast_views(r@) == search_result(podcast_views(found@), query@),
{
    let ghost vs = podcast_views(found@);
    let ghost pred = |p: PodcastView| podcast_matches(p, query@);
    let mut r: Vec<Podcast> = Vec::new();
    let mut i: usize = 0;
    while i < found.len()
        invariant
            i <= found.len(),
            vs == podcast_views(found@),
            pred == (|p: PodcastView| podcast_matches(p, query@)),
            podcast_views(r@) == vs.take(i as int).filter(pred),
        decreases found.len() - i,
    {
        let p = &found[i];
        let keep = contains_text(&p.title, query) || contains_text(&p.description, query);
        proof {
            reveal(Seq::filter);
            assert(vs.take(i + 1).drop_last() =~= vs.take(i as int));
            assert(vs[i as int] == p@);
        }
        if keep {
            let ghost before = r@;
            r.push(p.duplicate());
            assert(podcast_views(r@) =~= podcast_views(before).push(p@));
        }
        i = i + 1;
    }
    assert(vs.take(found.len() as int) =~= vs);
    r
}

/// A source of podcasts to discover.
pub trait DiscoveryBackend {
    /// The backend's catalog.
    fn discovery(&self) -> Result<Vec<Podcast>, DomError>;

    /// The catalog entries whose title or description holds `query`.
    fn search(&self, query: &str) -> (r: Result<Vec<Podcast>, DomError>)
        ensures
            r matches Ok(v) ==> exists|found: Seq<Podcast>| #![trigger search_result(podcast_views(found), query@)]
                podcast_views(v@) == search_result(podcast_views(found), query@),
    {
        match self.discovery() {
            Ok(found) => {
                let v = filter_podcasts(&found, query);
                assert(podcast_views(v@) == search_result(podcast_views(found@), query@));
                Ok(v)
            },
            Err(e) => Err(e),
        }
    }
}

/// The description of the one hand-picked podcast.
pub const PICKS_DESCRIPTION: &'static str = "Między indie a mainstreamem, casualem a hardcorem, rozrywką a tworzeniem - o grach, z wyobraźnią. Współtworzony przez pasjonatów na co dzień pracujących w branży, pełen pierwszych wrażeń, recenzji i relacji. Już ponad 10 lat snujemy opowieści o krnąbrnych herosach, zawiłych intrygach, poruszających narracjach, całych krainach najeżonych potworami i magicznymi artefaktami. A o czym opowiemy dzisiaj?";

/// A hand-picked catalog of podcasts.
pub struct MichciosPicks {}

impl MichciosPicks {
    /// The picks, all served by the "rss" backend.
    pub fn picks() -> (r: Vec<Podcast>)
        ensures
            r.len() == 1,
            r@[0].backend@ == "rss"@,
            r@[0].feed_url@ == "https://2pady.pl/feed/podcast"@,
            r@[0].title@ == "2pady.pl"@,
            r@[0].description@ == PICKS_DESCRIPTION@,
    {
        proof {
            reveal_strlit("rss");
            reveal_strlit("https://2pady.pl/feed/podcast");
            reveal_strlit("2pady.pl");
        }
        let mut r: Vec<Podcast> = Vec::new();
        r.push(Podcast {
            backend: "rss".to_string(),
            feed_url: "https://2pady.pl/feed/podcast".to_string(),
            title: "2pady.pl".to_string(),
            description: PICKS_DESCRIPTION.to_string(),
        });
        r
    }
}

impl DiscoveryBackend for MichciosPicks {
    fn discovery(&self) -> Result<Vec<Podcast>, DomError> {
        Ok(MichciosPicks::picks())
    }
}

} // verus!
