use std::cell::Cell;

use dom::aggregate::{episodes_for_group, sort_by_time, SortOrder};
use dom::backend::{Backends, FetchingBackend};
use dom::cache::FeedCache;
use dom::discovery::{filter_podcasts, DiscoveryBackend, MichciosPicks};
use dom::feed::{collect_episodes, episodes_from_feed, separate_ties, EntryDoc, FeedDoc};
use dom::model::{DomError, Episode, Podcast};
use dom::store::{Group, StateStore};
use dom::text::contains_text;

fn episode(title: &str, at: i64, url: &str) -> Episode {
    Episode {
        podcast: "Show".to_string(),
        title: title.to_string(),
        description: String::new(),
        published_at: at,
        audio_url: url.to_string(),
    }
}

struct CountingBackend {
    calls: Cell<usize>,
    fail: bool,
}

impl FetchingBackend for CountingBackend {
    fn fetch_feed(&self, _url: &str) -> Result<Vec<Episode>, DomError> {
        self.calls.set(self.calls.get() + 1);
        if self.fail {
            Err(DomError::Fetch("offline".to_string()))
        } else {
            Ok(vec![episode("E1", 100, "http://f/e1.mp3"), episode("E2", 200, "http://f/e2.mp3")])
        }
    }
}

fn backends(fail: bool) -> Backends<CountingBackend> {
    Backends { rss: CountingBackend { calls: Cell::new(0), fail } }
}

#[test]
fn cache_fetches_once() {
    let b = backends(false);
    let mut c = FeedCache::new();
    let first = c.get_or_fetch(&b, "rss", "http://f").unwrap();
    for _ in 0..5 {
        let again = c.get_or_fetch(&b, "rss", "http://f").unwrap();
        assert_eq!(format!("{:?}", again), format!("{:?}", first));
    }
    assert_eq!(b.rss.calls.get(), 1);
}

#[test]
fn wipe_forces_refetch() {
    let b = backends(false);
    let mut c = FeedCache::new();
    c.get_or_fetch(&b, "rss", "http://f").unwrap();
    c.wipe();
    assert!(c.lookup("http://f").is_none());
    c.get_or_fetch(&b, "rss", "http://f").unwrap();
    assert_eq!(b.rss.calls.get(), 2);
}

#[test]
fn failed_fetch_is_not_cached() {
    let b = backends(true);
    let mut c = FeedCache::new();
    assert!(matches!(c.get_or_fetch(&b, "rss", "http://f"), Err(DomError::Fetch(_))));
    assert!(c.lookup("http://f").is_none());
    assert!(c.get_or_fetch(&b, "rss", "http://f").is_err());
    assert_eq!(b.rss.calls.get(), 2);
}

#[test]
fn unknown_backend_is_reported() {
    let b = backends(false);
    match b.get_backend("xyz") {
        Err(DomError::UnknownBackend(n)) => assert_eq!(n, "xyz"),
        _ => panic!("expected UnknownBackend"),
    }
    let mut c = FeedCache::new();
    assert_eq!(
        c.get_or_fetch(&b, "xyz", "http://f").unwrap_err(),
        DomError::UnknownBackend("xyz".to_string())
    );
    assert_eq!(b.rss.calls.get(), 0);
    assert!(b.get_backend("rss").is_ok());
}

#[test]
fn group_scenario_newest_first() {
    let mut s = StateStore::open_temporary().unwrap();
    s.set_subscription(Group::Beloved, "http://f", "rss", true).unwrap();
    let b = backends(false);
    let mut c = FeedCache::new();
    let eps = episodes_for_group(&s, &mut c, &b, Group::Beloved, SortOrder::Descending).unwrap();
    let titles: Vec<&str> = eps.iter().map(|e| e.title.as_str()).collect();
    assert_eq!(titles, vec!["E2", "E1"]);
    s.set_listened(&eps[0].audio_url, true).unwrap();
    assert!(s.is_listened("http://f/e2.mp3").unwrap());
    assert!(!s.is_listened("http://f/e1.mp3").unwrap());
    let other = episodes_for_group(&s, &mut c, &b, Group::Timekilling, SortOrder::Descending).unwrap();
    assert!(other.is_empty());
}

#[test]
fn group_with_unknown_backend_fails() {
    let mut s = StateStore::open_temporary().unwrap();
    s.set_subscription(Group::Timekilling, "http://f", "xyz", true).unwrap();
    let b = backends(false);
    let mut c = FeedCache::new();
    let r = episodes_for_group(&s, &mut c, &b, Group::Timekilling, SortOrder::Ascending);
    assert_eq!(r.unwrap_err(), DomError::UnknownBackend("xyz".to_string()));
}

fn entry(at: Option<i64>, title: &str, urls: Vec<Option<&str>>) -> EntryDoc {
    EntryDoc {
        published: at,
        title: Some(title.to_string()),
        summary: None,
        media_urls: urls.into_iter().map(|u| u.map(|s| s.to_string())).collect(),
    }
}

#[test]
fn ties_are_broken_in_encounter_order() {
    let t: i64 = 1_600_000_000_000_000_000;
    let doc = FeedDoc {
        title: Some("Show".to_string()),
        entries: vec![
            entry(Some(t + 1_000_000_000), "C", vec![Some("c")]),
            entry(Some(t), "A", vec![Some("a")]),
            entry(Some(t), "B", vec![Some("b")]),
        ],
    };
    let eps = episodes_from_feed(&doc, 0).unwrap();
    let got: Vec<(&str, i64)> = eps.iter().map(|e| (e.title.as_str(), e.published_at)).collect();
    assert_eq!(got, vec![("A", t), ("B", t + 1), ("C", t + 1_000_000_000)]);
    let desc = sort_by_time(&eps, SortOrder::Descending);
    let titles: Vec<&str> = desc.iter().map(|e| e.title.as_str()).collect();
    assert_eq!(titles, vec!["C", "B", "A"]);
}

#[test]
fn entry_fields_and_defaults() {
    let doc = FeedDoc {
        title: Some("Show".to_string()),
        entries: vec![
            EntryDoc { published: None, title: None, summary: Some("sum".to_string()), media_urls: vec![Some("u1".to_string()), None, Some("u2".to_string())] },
        ],
    };
    let eps = collect_episodes(&doc, 42);
    assert_eq!(eps.len(), 2);
    assert_eq!(eps[0].title, "Show");
    assert_eq!(eps[0].description, "sum");
    assert_eq!(eps[0].published_at, 42);
    assert_eq!(eps[0].audio_url, "u1");
    assert_eq!(eps[1].audio_url, "u2");
    let ordered = episodes_from_feed(&doc, 42).unwrap();
    assert_eq!(ordered[0].published_at, 42);
    assert_eq!(ordered[1].published_at, 43);
}

#[test]
fn out_of_range_instant_is_a_fetch_error() {
    let doc = FeedDoc { title: None, entries: vec![entry(Some(i64::MAX), "X", vec![Some("x")])] };
    assert!(matches!(episodes_from_feed(&doc, 0), Err(DomError::Fetch(_))));
}

#[test]
fn ascending_sort() {
    let eps = vec![episode("b", 2, "b"), episode("a", 1, "a"), episode("c", 3, "c")];
    let asc = sort_by_time(&eps, SortOrder::Ascending);
    let titles: Vec<&str> = asc.iter().map(|e| e.title.as_str()).collect();
    assert_eq!(titles, vec!["a", "b", "c"]);
}

#[test]
fn latest_instant_that_fits_is_accepted() {
    let doc = FeedDoc { title: None, entries: vec![entry(Some(i64::MAX - 2), "X", vec![Some("x"), Some("y")])] };
    let eps = episodes_from_feed(&doc, 0).unwrap();
    assert_eq!(eps[0].published_at, i64::MAX - 2);
    assert_eq!(eps[1].published_at, i64::MAX - 1);
}

#[test]
fn ties_move_past_the_previous_episode() {
    let eps = vec![episode("a", 5, "a"), episode("b", 5, "b"), episode("c", 6, "c"), episode("d", 9, "d")];
    let sep = separate_ties(&eps);
    let got: Vec<i64> = sep.iter().map(|e| e.published_at).collect();
    assert_eq!(got, vec![5, 6, 7, 9]);
    assert_eq!(sep[2].title, "c");
}

fn pod(title: &str, description: &str) -> Podcast {
    Podcast {
        backend: "rss".to_string(),
        feed_url: format!("http://{}", title),
        title: title.to_string(),
        description: description.to_string(),
    }
}

struct Catalog;

impl DiscoveryBackend for Catalog {
    fn discovery(&self) -> Result<Vec<Podcast>, DomError> {
        Ok(vec![pod("abcdef", ""), pod("xyz", "")])
    }
}

#[test]
fn default_search_filters_by_substring() {
    let found = Catalog.search("abc").unwrap();
    assert_eq!(found.len(), 1);
    assert_eq!(found[0].title, "abcdef");
}

#[test]
fn search_looks_at_description_and_is_case_sensitive() {
    let list = vec![pod("one", "about ABC"), pod("two", "about abc"), pod("three", "")];
    let found = filter_podcasts(&list, "abc");
    assert_eq!(found.len(), 1);
    assert_eq!(found[0].title, "two");
    assert_eq!(filter_podcasts(&list, "").len(), 3);
}

#[test]
fn substring_check() {
    assert!(contains_text("abcdef", "cde"));
    assert!(contains_text("abc", ""));
    assert!(!contains_text("abc", "abcd"));
    assert!(!contains_text("abc", "ac"));
}

#[test]
fn picks_catalog() {
    let found = MichciosPicks {}.discovery().unwrap();
    assert_eq!(found.len(), 1);
    assert_eq!(found[0].backend, "rss");
    assert_eq!(found[0].title, "2pady.pl");
    assert_eq!(MichciosPicks {}.search("2pady").unwrap().len(), 1);
    assert!(MichciosPicks {}.search("nothing like this").unwrap().is_empty());
}

#[test]
fn failed_fetch_fails_the_group() {
    let mut s = StateStore::open_temporary().unwrap();
    s.set_subscription(Group::Beloved, "http://f", "rss", true).unwrap();
    let b = backends(true);
    let mut c = FeedCache::new();
    let r = episodes_for_group(&s, &mut c, &b, Group::Beloved, SortOrder::Descending);
    assert_eq!(r.unwrap_err(), DomError::Fetch("offline".to_string()));
    assert!(c.lookup("http://f").is_none());
}
