use vstd::prelude::*;
use vstd::utf8::{encode_utf8, encode_utf8_decode_utf8};
use crate::model::EpisodeView;
use crate::store::{StateStore, Group, listened_after, subscription_after, lists_subscriptions};
use crate::cache::no_feeds;

verus! {

/// Marking an episode listened twice leaves it listened, the second time
/// changing nothing; marking it unlistened afterwards leaves it unlistened.
pub proof fn lemma_listened_idempotent(s0: StateStore, s1: StateStore, s2: StateStore, s3: StateStore, url: Seq<char>)
    requires
        listened_after(s0, s1, url, true),
        listened_after(s1, s2, url, true),
        listened_after(s2, s3, url, false),
    ensures
        s1.listened_spec(url),
        s2.listened_spec(url),
        s2.listened_entries() == s1.listened_entries(),
        !s3.listened_spec(url),
{
    assert(s2.listened_entries() =~= s1.listened_entries());
}

/// After subscribing a feed to a group, a listing of the group holds the feed
/// with its backend; after unsubscribing it, no listing holds the feed; the
/// other group is untouched either way.
pub proof fn lemma_subscription_toggle(
    s0: StateStore,
    s1: StateStore,
    s2: StateStore,
    group: Group,
    other: Group,
    url: Seq<char>,
    backend: Seq<char>,
    listed: Seq<(String, String)>,
    relisted: Seq<(String, String)>,
)
    requires
        subscription_after(s0, s1, group, url, backend, true),
        lists_subscriptions(s1.group_entries(group), listed),
        subscription_after(s1, s2, group, url, backend, false),
        lists_subscriptions(s2.group_entries(group), relisted),
        other != group,
    ensures
        exists|i: int| 0 <= i < listed.len() && #[trigger] listed[i].0@ == url && listed[i].1@ == backend,
        forall|i: int| 0 <= i < relisted.len() ==> #[trigger] relisted[i].0@ != url,
        s2.group_entries(other) == s0.group_entries(other),
{
    let k = encode_utf8(url);
    assert(s1.group_entries(group).contains_key(k));
    let i = choose|i: int| 0 <= i < listed.len() && encode_utf8(listed[i].0@) == k;
    encode_utf8_decode_utf8(url);
    encode_utf8_decode_utf8(listed[i].0@);
    encode_utf8_decode_utf8(backend);
    encode_utf8_decode_utf8(listed[i].1@);
    assert(listed[i].0@ == url);
    assert(listed[i].1@ == backend);
    assert forall|j: int| 0 <= j < relisted.len() implies #[trigger] relisted[j].0@ != url by {
        assert(s2.group_entries(group).contains_key(encode_utf8(relisted[j].0@)));
    }
}

/// Once a fetch for a URL has been stored, the cache holds that snapshot, so
/// a later `get_or_fetch` for the URL answers from it without a backend call.
pub proof fn lemma_stored_snapshot_answers(
    before: Map<Seq<char>, Seq<EpisodeView>>,
    after: Map<Seq<char>, Seq<EpisodeView>>,
    url: Seq<char>,
    fetched: Seq<EpisodeView>,
)
    requires
        after == before.insert(url, fetched),
    ensures
        after.contains_key(url),
        after[url] == fetched,
{
}

/// After a wipe the cache holds no URL, so the next `get_or_fetch` for any
/// URL goes to its backend.
pub proof fn lemma_wiped_cache_misses(wiped: Map<Seq<char>, Seq<EpisodeView>>, url: Seq<char>)
    requires
        wiped == no_feeds(),
    ensures
        !wiped.contains_key(url),
{
}

} // verus!
