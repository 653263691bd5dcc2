use vstd::prelude::*;
use vstd::utf8::{encode_utf8, decode_utf8, valid_utf8, encode_utf8_decode_utf8, decode_utf8_encode_utf8};
use crate::model::DomError;

verus! {

#[verifier::external_type_specification]
#[verifier::external_body]
pub struct ExTree(sled::Tree);

#[verifier::external_type_specification]
#[verifier::external_body]
pub struct ExDb(sled::Db);

/// The key/value pairs that a sled tree holds.
pub uninterp spec fn tree_entries(t: sled::Tree) -> Map<Seq<u8>, Seq<u8>>;

/// Relies on sled::open: opens (or creates) the database at `path`; sled
/// locks the files, so a second open of the same path fails.
#[verifier::external_body]
fn open_db(path: &str) -> (r: Result<sled::Db, String>)
{
    sled::open(path).map_err(|e| e.to_string())
}

/// Relies on sled::Config::open with `temporary(true)`: a fresh database
/// that is removed when dropped.
#[verifier::external_body]
fn open_temporary_db() -> (r: Result<sled::Db, String>)
{
    sled::Config::new().temporary(true).open().map_err(|e| e.to_string())
}

/// Relies on sled::Db::open_tree: opens (or creates) the named tree.
#[verifier::external_body]
fn open_tree(db: &sled::Db, name: &str) -> (r: Result<sled::Tree, String>)
{
    db.open_tree(name).map_err(|e| e.to_string())
}

/// Relies on sled::Tree::contains_key: whether the tree holds the key.
#[verifier::external_body]
fn tree_contains(t: &sled::Tree, key: &[u8]) -> (r: Result<bool, String>)
    ensures
        r matches Ok(b) ==> b == tree_entries(*t).contains_key(key@),
{
    t.contains_key(key).map_err(|e| e.to_string())
}

/// Relies on sled::Tree::insert: sets the value stored under the key.
#[verifier::external_body]
fn tree_insert(t: &mut sled::Tree, key: &[u8], value: &[u8]) -> (r: Result<(), String>)
    ensures
        r is Ok ==> tree_entries(*final(t)) == tree_entries(*old(t)).insert(key@, value@),
{
    t.insert(key, value).map(|_| ()).map_err(|e| e.to_string())
}

/// Relies on sled::Tree::remove: drops the key and its value.
#[verifier::external_body]
fn tree_remove(t: &mut sled::Tree, key: &[u8]) -> (r: Result<(), String>)
    ensures
        r is Ok ==> tree_entries(*final(t)) == tree_entries(*old(t)).remove(key@),
{
    t.remove(key).map(|_| ()).map_err(|e| e.to_string())
}

/// `l` holds each entry of `m` once, and nothing else.
pub open spec fn lists_bytes(m: Map<Seq<u8>, Seq<u8>>, l: Seq<(Vec<u8>, Vec<u8>)>) -> bool {
    &&& forall|i: int| 0 <= i < l.len() ==> #[trigger] m.contains_key(l[i].0@) && m[l[i].0@] == l[i].1@
    &&& forall|k: Seq<u8>| #[trigger] m.contains_key(k) ==> exists|i: int| 0 <= i < l.len() && l[i].0@ == k
    &&& forall|i: int, j: int| 0 <= i < j < l.len() ==> l[i].0@ != l[j].0@
}

/// Relies on sled::Tree::iter: every entry once, keys in ascending order.
#[verifier::external_body]
fn tree_scan(t: &sled::Tree) -> (r: Result<Vec<(Vec<u8>, Vec<u8>)>, String>)
    ensures
        r matches Ok(l) ==> lists_bytes(tree_entries(*t), l@),
{
    t.iter().map(|e| e.map(|(k, v)| (k.to_vec(), v.to_vec()))).collect::<Result<Vec<_>, _>>().map_err(|e| e.to_string())
}

/// Relies on String::from_utf8: accepts exactly the valid UTF-8 byte strings.
#[verifier::external_body]
fn text_from_bytes(b: Vec<u8>) -> (r: Option<String>)
    ensures
        r is Some <==> valid_utf8(b@),
        r matches Some(s) ==> s@ == decode_utf8(b@),
{
    String::from_utf8(b).ok()
}

/// The subscription groups.
#[derive(Debug, Clone, Copy, PartialEq, Eq, Structural)]
pub enum Group {
    Beloved,
    Timekilling,
}

pub open spec fn group_name_spec(g: Group) -> Seq<char> {
    match g {
        Group::Beloved => "beloved"@,
        Group::Timekilling => "timekilling"@,
    }
}

impl Group {
    /// The name of the group's collection.
    pub fn name(&self) -> (r: &'static str)
        ensures
            r@ == group_name_spec(*self),
    {
        match self {
            Group::Beloved => "beloved",
            Group::Timekilling => "timekilling",
        }
    }
}

/// `l` lists each entry of `m` once as text, and nothing else.
pub open spec fn lists_subscriptions(m: Map<Seq<u8>, Seq<u8>>, l: Seq<(String, String)>) -> bool {
    &&& forall|i: int| 0 <= i < l.len() ==>
        #[trigger] m.contains_key(encode_utf8(l[i].0@)) && m[encode_utf8(l[i].0@)] == encode_utf8(l[i].1@)
    &&& forall|k: Seq<u8>| #[trigger] m.contains_key(k) ==> exists|i: int| 0 <= i < l.len() && encode_utf8(l[i].0@) == k
    &&& forall|i: int, j: int| 0 <= i < j < l.len() ==> l[i].0@ != l[j].0@
}

/// `new` is `old` after marking `audio_url` listened (`true`) or not (`false`).
pub open spec fn listened_after(old: StateStore, new: StateStore, audio_url: Seq<char>, listened: bool) -> bool {
    &&& new.listened_entries() == if listened {
        old.listened_entries().insert(encode_utf8(audio_url), Seq::empty())
    } else {
        old.listened_entries().remove(encode_utf8(audio_url))
    }
    &&& forall|g: Group| #[trigger] new.group_entries(g) == old.group_entries(g)
}

/// `new` is `old` after setting the subscription of `feed_url` in `group`.
pub open spec fn subscription_after(old: StateStore, new: StateStore, group: Group, feed_url: Seq<char>, backend: Seq<char>, subscribed: bool) -> bool {
    &&& new.group_entries(group) == if subscribed {
        old.group_entries(group).insert(encode_utf8(feed_url), encode_utf8(backend))
    } else {
        old.group_entries(group).remove(encode_utf8(feed_url))
    }
    &&& forall|g: Group| g != group ==> #[trigger] new.group_entries(g) == old.group_entries(g)
    &&& new.listened_entries() == old.listened_entries()
}

/// Durable per-user state: the listened episodes and the subscription groups.
///
/// The store opens its database itself and never hands out the database or
/// its tree handles; sled refuses a second open of the same files. So the
/// contents that the contracts speak of change only through `&mut self`.
pub struct StateStore {
    db: sled::Db,
    listened: sled::Tree,
    beloved: sled::Tree,
    timekilling: sled::Tree,
}

impl StateStore {
    /// The listened markers, keyed by audio URL bytes.
    pub closed spec fn listened_entries(&self) -> Map<Seq<u8>, Seq<u8>> {
        tree_entries(self.listened)
    }

    /// The subscriptions of a group: feed URL bytes to backend identifier bytes.
    pub closed spec fn group_entries(&self, g: Group) -> Map<Seq<u8>, Seq<u8>> {
        match g {
            Group::Beloved => tree_entries(self.beloved),
            Group::Timekilling => tree_entries(self.timekilling),
        }
    }

    pub open spec fn listened_spec(&self, audio_url: Seq<char>) -> bool {
        self.listened_entries().contains_key(encode_utf8(audio_url))
    }

    pub open spec fn subscribed_spec(&self, g: Group, feed_url: Seq<char>) -> bool {
        self.group_entries(g).contains_key(encode_utf8(feed_url))
    }

    /// Opens (or creates) the store whose files lie at `path`.
    pub fn open(path: &str) -> (r: Result<StateStore, DomError>)
        ensures
            r matches Err(e) ==> e is Storage,
    {
        match open_db(path) {
            Ok(db) => StateStore::from_db(db),
            Err(m) => Err(DomError::Storage(m)),
        }
    }

    /// A fresh, empty store whose files are removed when it is dropped.
    pub fn open_temporary() -> (r: Result<StateStore, DomError>)
        ensures
            r matches Err(e) ==> e is Storage,
    {
        match open_temporary_db() {
            Ok(db) => StateStore::from_db(db),
            Err(m) => Err(DomError::Storage(m)),
        }
    }

    fn from_db(db: sled::Db) -> (r: Result<StateStore, DomError>)
        ensures
            r matches Err(e) ==> e is Storage,
    {
        let listened = match open_tree(&db, "listened") {
            Ok(t) => t,
            Err(m) => return Err(DomError::Storage(m)),
        };
        let beloved = match open_tree(&db, Group::Beloved.name()) {
            Ok(t) => t,
            Err(m) => return Err(DomError::Storage(m)),
        };
        let timekilling = match open_tree(&db, Group::Timekilling.name()) {
            Ok(t) => t,
            Err(m) => return Err(DomError::Storage(m)),
        };
        Ok(StateStore { db, listened, beloved, timekilling })
    }

    /// Whether the episode at `audio_url` was listened to.
    pub fn is_listened(&self, audio_url: &str) -> (r: Result<bool, DomError>)
        ensures
            r matches Ok(b) ==> b == self.listened_spec(audio_url@),
            r matches Err(e) ==> e is Storage,
    {
        match tree_contains(&self.listened, audio_url.as_bytes()) {
            Ok(b) => Ok(b),
            Err(m) => Err(DomError::Storage(m)),
        }
    }

    /// Marks the episode at `audio_url` listened (`true`) or not (`false`).
    pub fn set_listened(&mut self, audio_url: &str, listened: bool) -> (r: Result<(), DomError>)
        ensures
            r is Ok ==> listened_after(*old(self), *final(self), audio_url@, listened),
            forall|g: Group| #[trigger] final(self).group_entries(g) == old(self).group_entries(g),
            r matches Err(e) ==> e is Storage,
    {
        let key = audio_url.as_bytes();
        let res = if listened {
            let empty: Vec<u8> = Vec::new();
            tree_insert(&mut self.listened, key, empty.as_slice())
        } else {
            tree_remove(&mut self.listened, key)
        };
        match res {
            Ok(()) => Ok(()),
            Err(m) => Err(DomError::Storage(m)),
        }
    }

    /// Whether `feed_url` is subscribed in `group`.
    pub fn is_subscribed(&self, group: Group, feed_url: &str) -> (r: Result<bool, DomError>)
        ensures
            r matches Ok(b) ==> b == self.subscribed_spec(group, feed_url@),
            r matches Err(e) ==> e is Storage,
    {
        let t = match group {
            Group::Beloved => &self.beloved,
            Group::Timekilling => &self.timekilling,
        };
        match tree_contains(t, feed_url.as_bytes()) {
            Ok(b) => Ok(b),
            Err(m) => Err(DomError::Storage(m)),
        }
    }

    /// Subscribes `feed_url`, served by `backend`, to `group` (`true`), or
    /// unsubscribes it (`false`).
    pub fn set_subscription(&mut self, group: Group, feed_url: &str, backend: &str, subscribed: bool) -> (r: Result<(), DomError>)
        ensures
            r is Ok ==> subscription_after(*old(self), *final(self), group, feed_url@, backend@, subscribed),
            forall|g: Group| g != group ==> #[trigger] final(self).group_entries(g) == old(self).group_entries(g),
            final(self).listened_entries() == old(self).listened_entries(),
            r matches Err(e) ==> e is Storage,
    {
        let key = feed_url.as_bytes();
        let t = match group {
            Group::Beloved => &mut self.beloved,
            Group::Timekilling => &mut self.timekilling,
        };
        let res = if subscribed {
            tree_insert(t, key, backend.as_bytes())
        } else {
            tree_remove(t, key)
        };
        match res {
            Ok(()) => Ok(()),
            Err(m) => Err(DomError::Storage(m)),
        }
    }

    /// The `(feed_url, backend)` pairs subscribed in `group`, in no set order.
    pub fn list_subscriptions(&self, group: Group) -> (r: Result<Vec<(String, String)>, DomError>)
        ensures
            r matches Ok(l) ==> lists_subscriptions(self.group_entries(group), l@),
            r matches Err(e) ==> e is Storage,
    {
        let t = match group {
            Group::Beloved => &self.beloved,
            Group::Timekilling => &self.timekilling,
        };
        let raw = match tree_scan(t) {
            Ok(l) => l,
            Err(m) => return Err(DomError::Storage(m)),
        };
        decode_subscriptions(raw)
    }
}

pub open spec fn all_text(raw: Seq<(Vec<u8>, Vec<u8>)>) -> bool {
    forall|i: int| 0 <= i < raw.len() ==> valid_utf8(#[trigger] raw[i].0@) && valid_utf8(raw[i].1@)
}

/// The stored `(feed_url, backend)` byte pairs as text, in the same order;
/// fails when one of them is not UTF-8.
pub fn decode_subscriptions(raw: Vec<(Vec<u8>, Vec<u8>)>) -> (r: Result<Vec<(String, String)>, DomError>)
    ensures
        r is Ok <==> all_text(raw@),
        r matches Ok(l) ==> l.len() == raw@.len() && forall|i: int| 0 <= i < l.len() ==>
            #[trigger] l@[i].0@ == decode_utf8(raw@[i].0@) && l@[i].1@ == decode_utf8(raw@[i].1@),
        forall|m: Map<Seq<u8>, Seq<u8>>| lists_bytes(m, raw@) ==>
            (r matches Ok(l) ==> lists_subscriptions(m, l@)),
        r matches Err(e) ==> e is Storage,
{
    let ghost orig = raw@;
    let mut out: Vec<(String, String)> = Vec::new();
    for (k, v) in it: raw
        invariant
            it.seq() == orig,
            out.len() == it.index(),
            forall|j: int| 0 <= j < out.len() ==> encode_utf8(#[trigger] out@[j].0@) == orig[j].0@
                && encode_utf8(out@[j].1@) == orig[j].1@,
            forall|j: int| 0 <= j < out.len() ==> #[trigger] out@[j].0@ == decode_utf8(orig[j].0@)
                && out@[j].1@ == decode_utf8(orig[j].1@),
            forall|j: int| 0 <= j < out.len() ==> valid_utf8(#[trigger] orig[j].0@) && valid_utf8(orig[j].1@),
    {
        let ghost kb = k@;
        let ghost vb = v@;
        let ghost at = it.index();
        assert(orig[at] == (k, v));
        let ks = match text_from_bytes(k) {
            Some(s) => s,
            None => return Err(DomError::Storage("feed URL is not UTF-8".to_string())),
        };
        let vs = match text_from_bytes(v) {
            Some(s) => s,
            None => return Err(DomError::Storage("backend name is not UTF-8".to_string())),
        };
        proof {
            decode_utf8_encode_utf8(kb);
            decode_utf8_encode_utf8(vb);
        }
        out.push((ks, vs));
    }
    assert forall|m: Map<Seq<u8>, Seq<u8>>| lists_bytes(m, orig) implies lists_subscriptions(m, out@) by {
        assert forall|k: Seq<u8>| #[trigger] m.contains_key(k) implies exists|i: int| 0 <= i < out@.len() && encode_utf8(out@[i].0@) == k by {
            let i = choose|i: int| 0 <= i < orig.len() && orig[i].0@ == k;
            assert(encode_utf8(out@[i].0@) == k);
        }
        assert forall|i: int, j: int| 0 <= i < j < out@.len() implies out@[i].0@ != out@[j].0@ by {
            assert(encode_utf8(out@[i].0@) == orig[i].0@);
            assert(encode_utf8(out@[j].0@) == orig[j].0@);
        }
    }
    Ok(out)
}

} // verus!
