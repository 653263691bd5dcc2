use dom::model::DomError;
use dom::store::{decode_subscriptions, Group, StateStore};

fn temp_store() -> StateStore {
    StateStore::open_temporary().unwrap()
}

#[test]
fn listened_marking_is_idempotent() {
    let mut s = temp_store();
    let u = "http://example.com/ep1.mp3";
    assert!(!s.is_listened(u).unwrap());
    s.set_listened(u, true).unwrap();
    s.set_listened(u, true).unwrap();
    assert!(s.is_listened(u).unwrap());
    s.set_listened(u, false).unwrap();
    assert!(!s.is_listened(u).unwrap());
    s.set_listened(u, false).unwrap();
    assert!(!s.is_listened(u).unwrap());
}

#[test]
fn listened_marks_are_per_url() {
    let mut s = temp_store();
    s.set_listened("a", true).unwrap();
    assert!(s.is_listened("a").unwrap());
    assert!(!s.is_listened("b").unwrap());
}

#[test]
fn subscription_toggling() {
    let mut s = temp_store();
    let u = "https://2pady.pl/feed/podcast";
    s.set_subscription(Group::Beloved, u, "rss", true).unwrap();
    let listed = s.list_subscriptions(Group::Beloved).unwrap();
    assert_eq!(listed, vec![(u.to_string(), "rss".to_string())]);
    assert!(s.is_subscribed(Group::Beloved, u).unwrap());
    assert!(!s.is_subscribed(Group::Timekilling, u).unwrap());
    assert!(s.list_subscriptions(Group::Timekilling).unwrap().is_empty());
    s.set_subscription(Group::Beloved, u, "rss", false).unwrap();
    assert!(s.list_subscriptions(Group::Beloved).unwrap().is_empty());
    assert!(!s.is_subscribed(Group::Beloved, u).unwrap());
}

#[test]
fn groups_are_independent() {
    let mut s = temp_store();
    let u = "http://feed";
    s.set_subscription(Group::Timekilling, u, "rss", true).unwrap();
    s.set_subscription(Group::Beloved, u, "rss", true).unwrap();
    s.set_subscription(Group::Beloved, u, "rss", false).unwrap();
    assert!(s.is_subscribed(Group::Timekilling, u).unwrap());
    assert!(!s.is_subscribed(Group::Beloved, u).unwrap());
}

#[test]
fn resubscribing_keeps_last_backend() {
    let mut s = temp_store();
    s.set_subscription(Group::Beloved, "f", "rss", true).unwrap();
    s.set_subscription(Group::Beloved, "f", "other", true).unwrap();
    let listed = s.list_subscriptions(Group::Beloved).unwrap();
    assert_eq!(listed, vec![("f".to_string(), "other".to_string())]);
}

#[test]
fn listing_holds_every_subscription_once() {
    let mut s = temp_store();
    s.set_subscription(Group::Beloved, "f2", "rss", true).unwrap();
    s.set_subscription(Group::Beloved, "f1", "rss", true).unwrap();
    s.set_subscription(Group::Beloved, "f2", "rss", true).unwrap();
    let mut listed = s.list_subscriptions(Group::Beloved).unwrap();
    listed.sort();
    assert_eq!(
        listed,
        vec![("f1".to_string(), "rss".to_string()), ("f2".to_string(), "rss".to_string())]
    );
}

#[test]
fn group_names() {
    assert_eq!(Group::Beloved.name(), "beloved");
    assert_eq!(Group::Timekilling.name(), "timekilling");
}

#[test]
fn undecodable_entry_is_a_storage_error() {
    let raw = vec![(b"http://f".to_vec(), b"rss".to_vec()), (vec![0xffu8, 0xfe], b"rss".to_vec())];
    assert!(matches!(decode_subscriptions(raw), Err(DomError::Storage(_))));
    let ok = decode_subscriptions(vec![(b"http://f".to_vec(), b"rss".to_vec())]).unwrap();
    assert_eq!(ok, vec![("http://f".to_string(), "rss".to_string())]);
}

#[test]
fn state_survives_reopening_and_is_not_shared() {
    let path = "/tmp/dom_state_store_reopen_check";
    {
        let mut s = StateStore::open(path).unwrap();
        s.set_listened("http://e", true).unwrap();
        s.set_subscription(Group::Timekilling, "http://f", "rss", true).unwrap();
        assert!(matches!(StateStore::open(path), Err(DomError::Storage(_))));
    }
    let mut s = StateStore::open(path).unwrap();
    assert!(s.is_listened("http://e").unwrap());
    assert!(s.is_subscribed(Group::Timekilling, "http://f").unwrap());
    s.set_listened("http://e", false).unwrap();
    s.set_subscription(Group::Timekilling, "http://f", "rss", false).unwrap();
}
