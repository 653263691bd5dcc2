use vstd::prelude::*;
use crate::model::{Episode, EpisodeView, DomError, episode_views};
use crate::store::{StateStore, Group, lists_subscriptions};
use crate::cache::FeedCache;
use crate::backend::{Backends, FetchingBackend};

verus! {

/// Direction in which episodes are listed by publication instant.
#[derive(Debug, Clone, Copy, PartialEq, Eq, Structural)]
pub enum SortOrder {
    /// Oldest first.
    Ascending,
    /// Newest first.
    Descending,
}

pub open spec fn sorted_in(s: Seq<EpisodeView>, order: SortOrder) -> bool {
    forall|i: int, j: int| 0 <= i < j < s.len() ==> match order {
        SortOrder::Ascending => s[i].published_at <= s[j].published_at,
        SortOrder::Descending => s[i].published_at >= s[j].published_at,
    }
}

/// `a` may stand before `b` in the direction `order`.
pub open spec fn in_order(a: EpisodeView, b: EpisodeView, order: SortOrder) -> bool {
    match order {
        SortOrder::Ascending => a.published_at <= b.published_at,
        SortOrder::Descending => a.published_at >= b.published_at,
    }
}

fn may_precede(a: &Episode, b: &Episode, order: SortOrder) -> (r: bool)
    ensures
        r == in_order(a@, b@, order),
{
    match order {
        SortOrder::Ascending => a.published_at <= b.published_at,
        SortOrder::Descending => a.published_at >= b.published_at,
    }
}

/// The episodes of `eps` ordered by publication instant in the direction
/// `order`; episodes at the same instant keep their order.
pub fn sort_by_time(eps: &Vec<Episode>, order: SortOrder) -> (r: Vec<Episode>)
    ensures
        r.len() == eps.len(),
        episode_views(r@).to_multiset() == episode_views(eps@).to_multiset(),
        sorted_in(episode_views(r@), order),
{
    broadcast use vstd::seq_lib::group_to_multiset_ensures;
    let mut out: Vec<Episode> = Vec::new();
    let mut i: usize = 0;
    while i < eps.len()
        invariant
            i <= eps.len(),
            out.len() == i,
            episode_views(out@).to_multiset() == episode_views(eps@.take(i as int)).to_multiset(),
            sorted_in(episode_views(out@), order),
        decreases eps.len() - i,
    {
        let e = eps[i].duplicate();
        let ghost ov = episode_views(out@);
        let mut p: usize = 0;
        while p < out.len() && may_precede(&out[p], &e, order)
            invariant
                p <= out.len(),
                ov == episode_views(out@),
                forall|q: int| 0 <= q < p ==> in_order(#[trigger] ov[q], e@, order),
            decreases out.len() - p,
        {
            assert(ov[p as int] == out@[p as int]@);
            p = p + 1;
        }
        proof {
            if p < out.len() {
                assert(ov[p as int] == out@[p as int]@);
                assert(!in_order(ov[p as int], e@, order));
            }
        }
        out.insert(p, e);
        proof {
            let nv = episode_views(out@);
            assert(nv =~= ov.insert(p as int, e@));
            assert(eps@.take(i + 1) =~= eps@.take(i as int).push(eps@[i as int]));
            assert(episode_views(eps@.take(i + 1)) =~= episode_views(eps@.take(i as int)).push(e@));
            vstd::seq_lib::to_multiset_insert(ov, p as int, e@);
            vstd::seq_lib::to_multiset_build(episode_views(eps@.take(i as int)), e@);
            assert forall|a: int, b: int| 0 <= a < b < nv.len() implies in_order(nv[a], nv[b], order) by {
                if b < p {
                } else if b == p {
                } else if a < p {
                    assert(in_order(ov[a], e@, order));
                    assert(!in_order(ov[p as int], e@, order) || p == ov.len());
                } else if a == p {
                    assert(!in_order(ov[p as int], e@, order));
                    assert(in_order(ov[p as int], ov[b - 1], order) || b - 1 == p);
                } else {
                }
            }
        }
        i = i + 1;
    }
    assert(eps@.take(eps.len() as int) =~= eps@);
    out
}

/// The stored snapshots of the first `n` listed feeds, one after the other.
pub open spec fn listed_snapshots(cache: Map<Seq<char>, Seq<EpisodeView>>, l: Seq<(String, String)>, n: int) -> Seq<EpisodeView>
    decreases n,
{
    if n <= 0 {
        Seq::empty()
    } else {
        listed_snapshots(cache, l, n - 1) + cache[l[n - 1].0@]
    }
}

/// `c2` keeps every entry of `c1` as it was.
pub open spec fn keeps_entries(c1: Map<Seq<char>, Seq<EpisodeView>>, c2: Map<Seq<char>, Seq<EpisodeView>>) -> bool {
    forall|url: Seq<char>| #[trigger] c1.contains_key(url) ==> c2.contains_key(url) && c2[url] == c1[url]
}

proof fn lemma_snapshots_kept(
    c1: Map<Seq<char>, Seq<EpisodeView>>,
    c2: Map<Seq<char>, Seq<EpisodeView>>,
    l: Seq<(String, String)>,
    n: int,
)
    requires
        0 <= n <= l.len(),
        forall|j: int| 0 <= j < n ==> #[trigger] c1.contains_key(l[j].0@),
        keeps_entries(c1, c2),
    ensures
        listed_snapshots(c2, l, n) == listed_snapshots(c1, l, n),
    decreases n,
{
    if n > 0 {
        lemma_snapshots_kept(c1, c2, l, n - 1);
        assert(c1.contains_key(l[n - 1].0@));
    }
}

/// The episodes of the listed `(feed_url, backend)` pairs, each fetched
/// through the cache, in the direction `order`. The first failed fetch ends
/// the call with its error.
pub fn merge_feeds<R: FetchingBackend>(
    feeds: &Vec<(String, String)>,
    cache: &mut FeedCache,
    backends: &Backends<R>,
    order: SortOrder,
) -> (r: Result<Vec<Episode>, DomError>)
    ensures
        r is Ok <==> forall|j: int| 0 <= j < feeds.len() ==> #[trigger] final(cache)@.contains_key(feeds@[j].0@),
        r matches Ok(v) ==> episode_views(v@).to_multiset() == listed_snapshots(
            final(cache)@, feeds@, feeds.len() as int).to_multiset(),
        r matches Ok(v) ==> sorted_in(episode_views(v@), order),
        keeps_entries(old(cache)@, final(cache)@),
{
    let mut flat: Vec<Episode> = Vec::new();
    let mut i: usize = 0;
    while i < feeds.len()
        invariant
            i <= feeds.len(),
            keeps_entries(old(cache)@, cache@),
            forall|j: int| 0 <= j < i ==> #[trigger] cache@.contains_key(feeds@[j].0@),
            episode_views(flat@) == listed_snapshots(cache@, feeds@, i as int),
        decreases feeds.len() - i,
    {
        let ghost c1 = cache@;
        let got = match cache.get_or_fetch(backends, &feeds[i].1, &feeds[i].0) {
            Ok(v) => v,
            Err(e) => {
                assert(!cache@.contains_key(feeds@[i as int].0@));
                return Err(e);
            },
        };
        let ghost u = feeds@[i as int].0@;
        assert(keeps_entries(c1, cache@)) by {
            assert forall|url: Seq<char>| #[trigger] c1.contains_key(url) implies cache@.contains_key(url)
                && cache@[url] == c1[url] by {
                if url != u {
                }
            }
        }
        proof {
            lemma_snapshots_kept(c1, cache@, feeds@, i as int);
        }
        let ghost before = episode_views(flat@);
        let mut k: usize = 0;
        while k < got.len()
            invariant
                k <= got.len(),
                episode_views(flat@) == before + episode_views(got@).take(k as int),
            decreases got.len() - k,
        {
            let ghost fo = flat@;
            flat.push(got[k].duplicate());
            assert(episode_views(flat@) =~= episode_views(fo).push(got@[k as int]@));
            assert(episode_views(got@).take(k + 1) =~= episode_views(got@).take(k as int).push(got@[k as int]@));
            assert(episode_views(flat@) =~= before + episode_views(got@).take(k + 1));
            k = k + 1;
        }
        assert(episode_views(got@).take(got.len() as int) =~= episode_views(got@));
        i = i + 1;
    }
    Ok(sort_by_time(&flat, order))
}

/// The episodes of every feed subscribed in `group`, fetched through the
/// cache, in the direction `order`. A failed listing or fetch fails the call.
pub fn episodes_for_group<R: FetchingBackend>(
    store: &StateStore,
    cache: &mut FeedCache,
    backends: &Backends<R>,
    group: Group,
    order: SortOrder,
) -> (r: Result<Vec<Episode>, DomError>)
    ensures
        r matches Ok(v) ==> exists|l: Seq<(String, String)>| #![trigger lists_subscriptions(store.group_entries(group), l)]
            lists_subscriptions(store.group_entries(group), l)
            && episode_views(v@).to_multiset() == listed_snapshots(final(cache)@, l, l.len() as int).to_multiset(),
        r matches Ok(v) ==> sorted_in(episode_views(v@), order),
        r is Ok ==> forall|url: Seq<char>| #[trigger] store.subscribed_spec(group, url) ==> final(cache)@.contains_key(url),
        r matches Err(e) ==> e is Storage || exists|url: Seq<char>| #[trigger] store.subscribed_spec(group, url)
            && !final(cache)@.contains_key(url),
        keeps_entries(old(cache)@, final(cache)@),
{
    let feeds = match store.list_subscriptions(group) {
        Ok(l) => l,
        Err(e) => return Err(e),
    };
    let r = merge_feeds(&feeds, cache, backends, order);
    proof {
        if r is Ok {
            assert forall|url: Seq<char>| #[trigger] store.subscribed_spec(group, url) implies cache@.contains_key(url) by {
                let k = vstd::utf8::encode_utf8(url);
                assert(store.group_entries(group).contains_key(k));
                let j = choose|j: int| 0 <= j < feeds.len() && vstd::utf8::encode_utf8(feeds@[j].0@) == k;
                vstd::utf8::encode_utf8_decode_utf8(url);
                vstd::utf8::encode_utf8_decode_utf8(feeds@[j].0@);
                assert(cache@.contains_key(feeds@[j].0@));
            }
        } else {
            let j = choose|j: int| 0 <= j < feeds.len() && !#[trigger] cache@.contains_key(feeds@[j].0@);
            assert(store.group_entries(group).contains_key(vstd::utf8::encode_utf8(feeds@[j].0@)));
            assert(store.subscribed_spec(group, feeds@[j].0@));
        }
    }
    r
}

} // verus!
