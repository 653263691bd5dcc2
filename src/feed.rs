use vstd::prelude::*;
use crate::model::{Episode, EpisodeView, DomError, episode_views};
use crate::aggregate::{SortOrder, sort_by_time, sorted_in};

verus! {

/// One entry of a parsed feed, as the episode builder reads it.
#[derive(Debug, Clone)]
pub struct EntryDoc {
    /// Publication instant in nanoseconds since the Unix epoch, if given.
    pub published: Option<i64>,
    pub title: Option<String>,
    pub summary: Option<String>,
    /// For each media object, the URL of its first content, if any.
    pub media_urls: Vec<Option<String>>,
}

/// A parsed feed, as the episode builder reads it.
#[derive(Debug, Clone)]
pub struct FeedDoc {
    pub title: Option<String>,
    pub entries: Vec<EntryDoc>,
}

pub open spec fn text_or(o: Option<String>, default: Seq<char>) -> Seq<char> {
    match o {
        Some(s) => s@,
        None => default,
    }
}

/// The episode that a media URL of an entry yields.
pub open spec fn media_episode(podcast: Seq<char>, e: EntryDoc, now: i64, url: Seq<char>) -> EpisodeView {
    EpisodeView {
        podcast: podcast,
        title: text_or(e.title, podcast),
        description: text_or(e.summary, Seq::empty()),
        published_at: match e.published {
            Some(t) => t,
            None => now,
        },
        audio_url: url,
    }
}

/// The episodes of an entry's first `urls.len()` media objects; one without a URL yields none.
pub open spec fn entry_episodes(podcast: Seq<char>, e: EntryDoc, now: i64, urls: Seq<Option<String>>) -> Seq<EpisodeView>
    decreases urls.len(),
{
    if urls.len() == 0 {
        Seq::empty()
    } else {
        let rest = entry_episodes(podcast, e, now, urls.drop_last());
        match urls.last() {
            Some(u) => rest.push(media_episode(podcast, e, now, u@)),
            None => rest,
        }
    }
}

pub open spec fn feed_podcast(doc: FeedDoc) -> Seq<char> {
    text_or(doc.title, Seq::empty())
}

/// The episodes of the first `n` entries, in the order they occur.
pub open spec fn feed_episodes_upto(doc: FeedDoc, now: i64, n: int) -> Seq<EpisodeView>
    decreases n,
{
    if n <= 0 {
        Seq::empty()
    } else {
        feed_episodes_upto(doc, now, n - 1) + entry_episodes(
            feed_podcast(doc),
            doc.entries@[n - 1],
            now,
            doc.entries@[n - 1].media_urls@,
        )
    }
}

/// The episodes of a feed, in the order they occur.
pub open spec fn feed_episodes(doc: FeedDoc, now: i64) -> Seq<EpisodeView> {
    feed_episodes_upto(doc, now, doc.entries@.len() as int)
}

fn copy_text_or(o: &Option<String>, default: &String) -> (r: String)
    ensures
        r@ == text_or(*o, default@),
{
    match o {
        Some(s) => s.clone(),
        None => default.clone(),
    }
}

/// The episodes of `doc` in the order they occur; an entry without a
/// publication date is dated `now`.
pub fn collect_episodes(doc: &FeedDoc, now: i64) -> (r: Vec<Episode>)
    ensures
        episode_views(r@) == feed_episodes(*doc, now),
{
    let podcast = copy_text_or(&doc.title, &String::new());
    let empty = String::new();
    let mut out: Vec<Episode> = Vec::new();
    let mut i: usize = 0;
    while i < doc.entries.len()
        invariant
            i <= doc.entries.len(),
            podcast@ == feed_podcast(*doc),
            empty@ == Seq::<char>::empty(),
            episode_views(out@) == feed_episodes_upto(*doc, now, i as int),
        decreases doc.entries.len() - i,
    {
        let e = &doc.entries[i];
        let ghost base = out@;
        let mut j: usize = 0;
        while j < e.media_urls.len()
            invariant
                j <= e.media_urls.len(),
                *e == doc.entries@[i as int],
                podcast@ == feed_podcast(*doc),
                empty@ == Seq::<char>::empty(),
                episode_views(out@) == feed_episodes_upto(*doc, now, i as int) + entry_episodes(
                    podcast@, *e, now, e.media_urls@.take(j as int)),
            decreases e.media_urls.len() - j,
        {
            let ghost before = out@;
            proof {
                assert(e.media_urls@.take(j + 1).drop_last() =~= e.media_urls@.take(j as int));
                assert(e.media_urls@.take(j + 1).last() == e.media_urls@[j as int]);
            }
            match &e.media_urls[j] {
                Some(u) => {
                    let published_at = match e.published {
                        Some(t) => t,
                        None => now,
                    };
                    out.push(Episode {
                        podcast: podcast.clone(),
                        title: copy_text_or(&e.title, &podcast),
                        description: copy_text_or(&e.summary, &empty),
                        published_at,
                        audio_url: u.clone(),
                    });
                    assert(episode_views(out@) =~= episode_views(before).push(
                        media_episode(podcast@, *e, now, u@)));
                },
                None => {},
            }
            j = j + 1;
        }
        assert(e.media_urls@.take(e.media_urls.len() as int) =~= e.media_urls@);
        i = i + 1;
    }
    out
}


/// `a` is `b` but for its publication instant.
pub open spec fn same_but_time(a: EpisodeView, b: EpisodeView) -> bool {
    &&& a.podcast == b.podcast
    &&& a.title == b.title
    &&& a.description == b.description
    &&& a.audio_url == b.audio_url
}

/// `r` is `s` with each episode that would not come strictly after the one
/// before it moved to one nanosecond past it.
pub open spec fn ties_separated(r: Seq<EpisodeView>, s: Seq<EpisodeView>) -> bool {
    &&& r.len() == s.len()
    &&& forall|i: int| 0 <= i < r.len() ==> same_but_time(#[trigger] r[i], s[i])
    &&& r.len() > 0 ==> r[0].published_at == s[0].published_at
    &&& forall|i: int| 0 < i < r.len() ==> (#[trigger] r[i]).published_at == if s[i].published_at > r[i - 1].published_at {
        s[i].published_at as int
    } else {
        r[i - 1].published_at + 1
    }
}

pub open spec fn strictly_ascending(s: Seq<EpisodeView>) -> bool {
    forall|i: int, j: int| 0 <= i < j < s.len() ==> s[i].published_at < s[j].published_at
}

/// Every instant leaves room for one nanosecond per episode of `s`.
pub open spec fn instants_fit(s: Seq<EpisodeView>) -> bool {
    forall|k: int| 0 <= k < s.len() ==> (#[trigger] s[k]).published_at <= i64::MAX - s.len()
}

/// Moves each episode of `s` that would not come strictly after the one
/// before it to one nanosecond past it.
#[verifier::rlimit(50)]
pub fn separate_ties(s: &Vec<Episode>) -> (r: Vec<Episode>)
    requires
        instants_fit(episode_views(s@)),
    ensures
        ties_separated(episode_views(r@), episode_views(s@)),
        strictly_ascending(episode_views(r@)),
{
    let ghost sv = episode_views(s@);
    let mut out: Vec<Episode> = Vec::new();
    let mut i: usize = 0;
    while i < s.len()
        invariant
            i <= s.len(),
            sv == episode_views(s@),
            instants_fit(sv),
            out.len() == i,
            forall|a: int| 0 <= a < i ==> same_but_time(#[trigger] out@[a]@, sv[a]),
            i > 0 ==> out@[0].published_at == sv[0].published_at,
            forall|a: int| 0 < a < i ==> (#[trigger] out@[a]).published_at == if sv[a].published_at > out@[a - 1].published_at {
                sv[a].published_at as int
            } else {
                out@[a - 1].published_at + 1
            },
            forall|a: int| 0 <= a < i ==> (#[trigger] out@[a]).published_at <= i64::MAX - s.len() + a,
            forall|a: int, b: int| 0 <= a < b < i ==> out@[a].published_at < out@[b].published_at,
        decreases s.len() - i,
    {
        assert(sv[i as int] == s@[i as int]@);
        let mut e = s[i].duplicate();
        if i > 0 && s[i].published_at <= out[i - 1].published_at {
            e.published_at = out[i - 1].published_at + 1;
        }
        out.push(e);
        i = i + 1;
    }
    let ghost ov = episode_views(out@);
    assert forall|a: int| 0 <= a < ov.len() implies same_but_time(#[trigger] ov[a], sv[a]) by {
        assert(ov[a] == out@[a]@);
    }
    assert forall|a: int| 0 < a < ov.len() implies (#[trigger] ov[a]).published_at == if sv[a].published_at > ov[a - 1].published_at {
        sv[a].published_at as int
    } else {
        ov[a - 1].published_at + 1
    } by {
        assert(ov[a] == out@[a]@);
        assert(ov[a - 1] == out@[a - 1]@);
    }
    assert forall|a: int, b: int| 0 <= a < b < ov.len() implies ov[a].published_at < ov[b].published_at by {
        assert(ov[a] == out@[a]@);
        assert(ov[b] == out@[b]@);
    }
    if out.len() > 0 {
        assert(ov[0] == out@[0]@);
    }
    out
}

/// `v` is `flat` sorted oldest first, with ties separated.
pub open spec fn ordered_from(v: Seq<EpisodeView>, flat: Seq<EpisodeView>) -> bool {
    exists|s: Seq<EpisodeView>| #![trigger ties_separated(v, s)]
        s.to_multiset() == flat.to_multiset() && sorted_in(s, SortOrder::Ascending) && ties_separated(v, s)
}

/// The episodes of `doc` ordered by publication instant, entries at the same
/// instant in the order they occur, each tie moved one nanosecond past the
/// episode before it; an entry without a date is dated `now`. Fails when an
/// instant leaves no room for that.
pub fn episodes_from_feed(doc: &FeedDoc, now: i64) -> (r: Result<Vec<Episode>, DomError>)
    ensures
        r is Ok <==> instants_fit(feed_episodes(*doc, now)),
        r matches Ok(v) ==> ordered_from(episode_views(v@), feed_episodes(*doc, now)),
        r matches Ok(v) ==> strictly_ascending(episode_views(v@)),
        r matches Err(e) ==> e is Fetch,
{
    broadcast use vstd::seq_lib::group_to_multiset_ensures;
    let flat = collect_episodes(doc, now);
    let ghost fv = episode_views(flat@);
    assert(fv.len() == flat.len());
    let room: i128 = i64::MAX as i128 - flat.len() as i128;
    let mut k: usize = 0;
    while k < flat.len()
        invariant
            k <= flat.len(),
            room == i64::MAX - flat.len(),
            fv == episode_views(flat@),
            fv == feed_episodes(*doc, now),
            forall|m: int| 0 <= m < k ==> (#[trigger] fv[m]).published_at <= room,
            fv.len() == flat.len(),
        decreases flat.len() - k,
    {
        assert(fv[k as int] == flat@[k as int]@);
        if flat[k].published_at as i128 > room {
            assert(!instants_fit(fv));
            return Err(DomError::Fetch("publication date out of range".to_string()));
        }
        k = k + 1;
    }
    let sorted = sort_by_time(&flat, SortOrder::Ascending);
    let ghost sv = episode_views(sorted@);
    assert(instants_fit(sv)) by {
        assert forall|m: int| 0 <= m < sv.len() implies (#[trigger] sv[m]).published_at <= i64::MAX - sv.len() by {
            assert(sv.contains(sv[m]));
            assert(sv.to_multiset().count(sv[m]) > 0);
            assert(fv.contains(sv[m]));
        }
    }
    let r = separate_ties(&sorted);
    assert(sv.to_multiset() == feed_episodes(*doc, now).to_multiset()
        && sorted_in(sv, SortOrder::Ascending)
        && ties_separated(episode_views(r@), sv));
    assert(ordered_from(episode_views(r@), feed_episodes(*doc, now)));
    Ok(r)
}

} // verus!
