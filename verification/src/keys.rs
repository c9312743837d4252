//! The cache of topic keys: one symmetric key, as base64 text, for a topic
//! of a server. The secret store itself is reached by the caller; the cache
//! changes only when the caller reports that the secret store took the
//! change.

use vstd::prelude::*;
use vstd::utf8::{decode_utf8, valid_utf8};
use crate::error::Error;
use crate::models::{TopicKey, TopicKeyView};
use crate::vault::{
    attribute, distinct_keys, find_attribute, lemma_table_domain, lemma_table_lookup,
    lemma_table_push, lemma_table_remove, table_of, text_from_utf8, KeyringItem, KeyringItemView,
};

verus! {

/// The label under which a topic key is filed in the secret store.
pub const TOPIC_KEY_LABEL: &'static str = "Ntfyr Topic Key";

/// What the cache holds: for a server and a topic, the key.
pub type KeyTable = Map<(Seq<char>, Seq<char>), Seq<char>>;

/// The server and topic that a row is filed under.
pub open spec fn row_key(row: TopicKeyView) -> (Seq<char>, Seq<char>) {
    (row.server, row.topic)
}

/// The key that a row holds.
pub open spec fn row_value(row: TopicKeyView) -> Seq<char> {
    row.key
}

/// `row_key`, as a value.
pub open spec fn by_key() -> spec_fn(TopicKeyView) -> (Seq<char>, Seq<char>) {
    |r: TopicKeyView| row_key(r)
}

/// `row_value`, as a value.
pub open spec fn by_value() -> spec_fn(TopicKeyView) -> Seq<char> {
    |r: TopicKeyView| row_value(r)
}

/// The table of a list of rows; a later row replaces an earlier one for the
/// same server and topic.
pub open spec fn keys_of(rows: Seq<TopicKeyView>) -> KeyTable {
    table_of(rows, by_key(), by_value())
}

/// The rows that a list of preloaded keys stands for.
pub open spec fn preloaded_rows(items: Seq<((Seq<char>, Seq<char>), Seq<char>)>) -> Seq<
    TopicKeyView,
> {
    items.map_values(
        |i: ((Seq<char>, Seq<char>), Seq<char>)|
            TopicKeyView { server: i.0.0, topic: i.0.1, key: i.1 },
    )
}

/// The table that the items of the secret store load to. An item without
/// a `server` or a `topic` attribute is passed over; the secret of any
/// other item is its key, as UTF-8 text. A later item replaces an earlier
/// one for the same server and topic. Where a secret that counts is not
/// UTF-8, nothing loads.
pub open spec fn loaded_keys(items: Seq<KeyringItemView>) -> Option<KeyTable>
    decreases items.len(),
{
    if items.len() == 0 {
        Some(Map::empty())
    } else {
        match loaded_keys(items.drop_last()) {
            None => None,
            Some(table) => {
                let item = items.last();
                match (attribute(item.attributes, "server"@), attribute(item.attributes, "topic"@)) {
                    (Some(server), Some(topic)) => if valid_utf8(item.secret) {
                        Some(table.insert((server, topic), decode_utf8(item.secret)))
                    } else {
                        None
                    },
                    _ => Some(table),
                }
            },
        }
    }
}

/// The attributes under which the key of `topic` on `server` is filed.
pub open spec fn topic_key_attributes_of(server: Seq<char>, topic: Seq<char>) -> Seq<
    (Seq<char>, Seq<char>),
> {
    seq![("type"@, "topic_key"@), ("server"@, server), ("topic"@, topic)]
}

/// The cache of topic keys.
#[derive(Debug)]
pub struct Keys {
    rows: Vec<TopicKey>,
}

impl View for Keys {
    type V = KeyTable;

    closed spec fn view(&self) -> KeyTable {
        keys_of(self.rows.deep_view())
    }
}

impl Keys {
    /// The invariant of the cache: no server and topic is filed twice.
    pub closed spec fn wf(&self) -> bool {
        distinct_keys(self.rows.deep_view(), by_key())
    }

    /// An empty cache.
    pub fn new() -> (keys: Keys)
        ensures
            keys.wf(),
            keys@ == KeyTable::empty(),
    {
        let keys = Keys { rows: Vec::new() };
        assert(keys.rows.deep_view() =~= Seq::empty());
        keys
    }

    fn find(&self, server: &String, topic: &String) -> (r: Option<usize>)
        requires
            self.wf(),
        ensures
            r matches Some(i) ==> i < self.rows.len() && row_key(self.rows@[i as int].deep_view()) == (
                server@,
                topic@,
            ) && self@.contains_key((server@, topic@)) && self@[(server@, topic@)]
                == self.rows@[i as int].key@,
            r is None ==> !self@.contains_key((server@, topic@)),
    {
        let ghost key = by_key();
        let ghost value = by_value();
        let mut i: usize = 0;
        while i < self.rows.len()
            invariant
                i <= self.rows.len(),
                self.wf(),
                key == by_key(),
                value == by_value(),
                forall|k: int|
                    0 <= k < i ==> row_key(#[trigger] self.rows.deep_view()[k]) != (server@, topic@),
            decreases self.rows.len() - i,
        {
            if self.rows[i].server == *server && self.rows[i].topic == *topic {
                proof {
                    lemma_table_lookup(self.rows.deep_view(), key, value, i as int);
                }
                return Some(i);
            }
            i = i + 1;
        }
        proof {
            lemma_table_domain(self.rows.deep_view(), key, value, (server@, topic@));
        }
        None
    }

    fn put(&mut self, server: String, topic: String, key: String)
        requires
            old(self).wf(),
        ensures
            final(self).wf(),
            final(self)@ == old(self)@.insert((server@, topic@), key@),
    {
        match self.find(&server, &topic) {
            Some(i) => {
                let ghost before = self.rows.deep_view();
                let _ = self.rows.remove(i);
                assert(self.rows.deep_view() =~= before.remove(i as int));
                proof {
                    lemma_table_remove(before, by_key(), by_value(), i as int);
                }
            },
            None => {},
        }
        let ghost rows = self.rows.deep_view();
        let row = TopicKey { server, topic, key };
        self.rows.push(row);
        assert(self.rows.deep_view() =~= rows.push(row.deep_view()));
        proof {
            lemma_table_push(rows, by_key(), by_value(), row.deep_view());
            assert(final(self)@ =~= old(self)@.insert((server@, topic@), key@));
        }
    }

    /// A cache that holds `mock_keys`: for each server and topic its key.
    /// Where a server and topic occur twice, the later key counts.
    pub fn new_nullable(mock_keys: Vec<((String, String), String)>) -> (r: Result<Keys, Error>)
        ensures
            r matches Ok(keys) && keys.wf() && keys@ == keys_of(
                preloaded_rows(mock_keys.deep_view()),
            ),
    {
        let mut keys = Keys::new();
        let mut i: usize = 0;
        let ghost all = preloaded_rows(mock_keys.deep_view());
        assert(all.subrange(0, 0) =~= Seq::empty());
        while i < mock_keys.len()
            invariant
                i <= mock_keys.len(),
                keys.wf(),
                all == preloaded_rows(mock_keys.deep_view()),
                keys@ == keys_of(all.subrange(0, i as int)),
            decreases mock_keys.len() - i,
        {
            let item = &mock_keys[i];
            assert(all.subrange(0, i + 1).drop_last() =~= all.subrange(0, i as int));
            assert(all[i as int] == TopicKeyView {
                server: item.0.0@,
                topic: item.0.1@,
                key: item.1@,
            });
            keys.put(item.0.0.clone(), item.0.1.clone(), item.1.clone());
            i = i + 1;
        }
        assert(all.subrange(0, i as int) =~= all);
        Ok(keys)
    }

    /// Replaces what the cache holds by what `items`, the items that the
    /// secret store found, load to. Where they do not load, the answer is
    /// `VaultError` and the cache stays as it was.
    pub fn load(&mut self, items: Vec<KeyringItem>) -> (r: Result<(), Error>)
        requires
            old(self).wf(),
        ensures
            final(self).wf(),
            r is Ok <==> loaded_keys(items.deep_view()) is Some,
            r is Ok ==> Some(final(self)@) == loaded_keys(items.deep_view()),
            r matches Err(e) ==> e is VaultError && final(self)@ == old(self)@,
    {
        let mut fresh = Keys::new();
        let ghost all = items.deep_view();
        let mut i: usize = 0;
        assert(all.subrange(0, 0) =~= Seq::empty());
        while i < items.len()
            invariant
                i <= items.len(),
                fresh.wf(),
                all == items.deep_view(),
                loaded_keys(all.subrange(0, i as int)) == Some(fresh@),
                *self == *old(self),
                self.wf(),
            decreases items.len() - i,
        {
            assert(all.subrange(0, i + 1).drop_last() =~= all.subrange(0, i as int));
            assert(all.subrange(0, i + 1).last() == items@[i as int]@);
            let server = match find_attribute(&items[i].attributes, "server") {
                Some(s) => Some(s.clone()),
                None => None,
            };
            let topic = match find_attribute(&items[i].attributes, "topic") {
                Some(t) => Some(t.clone()),
                None => None,
            };
            match (server, topic) {
                (Some(server), Some(topic)) => {
                    match text_from_utf8(items[i].secret.clone()) {
                        Some(key) => {
                            fresh.put(server, topic, key);
                        },
                        None => {
                            proof {
                                lemma_load_fails_for_good(all, i + 1);
                            }
                            return Err(
                                Error::VaultError(String::from_str("a stored key is not UTF-8 text")),
                            );
                        },
                    }
                },
                _ => {},
            }
            i = i + 1;
        }
        assert(all.subrange(0, i as int) =~= all);
        self.rows = fresh.rows;
        Ok(())
    }

    /// The key of `topic` on `server`, if the cache holds one.
    pub fn get(&self, server: &str, topic: &str) -> (r: Option<String>)
        requires
            self.wf(),
        ensures
            r is Some <==> self@.contains_key((server@, topic@)),
            r matches Some(key) ==> key@ == self@[(server@, topic@)],
    {
        let server_name: String = server.to_owned();
        let topic_name: String = topic.to_owned();
        match self.find(&server_name, &topic_name) {
            Some(i) => Some(self.rows[i].key.clone()),
            None => None,
        }
    }

    /// The attributes under which the key of `topic` on `server` is filed
    /// in the secret store.
    pub fn item_attributes(server: &str, topic: &str) -> (r: Vec<(String, String)>)
        ensures
            r.deep_view() == topic_key_attributes_of(server@, topic@),
    {
        let mut out: Vec<(String, String)> = Vec::new();
        out.push((String::from_str("type"), String::from_str("topic_key")));
        out.push((String::from_str("server"), server.to_owned()));
        out.push((String::from_str("topic"), topic.to_owned()));
        assert(out.deep_view() =~= topic_key_attributes_of(server@, topic@));
        out
    }

    /// Files `key` for `topic` on `server`, once the secret store has been
    /// asked to keep it: `stored` is what the secret store answered. Where
    /// it failed, its error is handed on and the cache stays as it was.
    pub fn insert(&mut self, server: &str, topic: &str, key: &str, stored: Result<(), Error>) -> (r:
        Result<(), Error>)
        requires
            old(self).wf(),
        ensures
            final(self).wf(),
            r == stored,
            r is Ok ==> final(self)@ == old(self)@.insert((server@, topic@), key@),
            r is Err ==> final(self)@ == old(self)@,
    {
        if stored.is_ok() {
            self.put(server.to_owned(), topic.to_owned(), key.to_owned());
        }
        stored
    }

    /// Forgets the key of `topic` on `server`, once the secret store has
    /// been asked to delete it: `deleted` is what the secret store
    /// answered. Where it failed, its error is handed on and the cache
    /// stays as it was.
    pub fn delete(&mut self, server: &str, topic: &str, deleted: Result<(), Error>) -> (r: Result<
        (),
        Error,
    >)
        requires
            old(self).wf(),
        ensures
            final(self).wf(),
            r == deleted,
            r is Ok ==> final(self)@ == old(self)@.remove((server@, topic@)),
            r is Err ==> final(self)@ == old(self)@,
    {
        if deleted.is_ok() {
            let server_name: String = server.to_owned();
            let topic_name: String = topic.to_owned();
            match self.find(&server_name, &topic_name) {
                Some(i) => {
                    let ghost before = self.rows.deep_view();
                    let _ = self.rows.remove(i);
                    assert(self.rows.deep_view() =~= before.remove(i as int));
                    proof {
                        lemma_table_remove(before, by_key(), by_value(), i as int);
                    }
                },
                None => {
                    assert(self@ =~= self@.remove((server@, topic@)));
                },
            }
        }
        deleted
    }

    /// The keys that the cache holds, one row for each server and topic.
    pub fn list(&self) -> (r: Vec<TopicKey>)
        requires
            self.wf(),
        ensures
            keys_of(r.deep_view()) == self@,
            distinct_keys(r.deep_view(), by_key()),
    {
        let mut out: Vec<TopicKey> = Vec::new();
        let mut i: usize = 0;
        while i < self.rows.len()
            invariant
                i <= self.rows.len(),
                out.len() == i,
                forall|k: int| 0 <= k < i ==> out@[k].deep_view() == self.rows@[k].deep_view(),
            decreases self.rows.len() - i,
        {
            let row = &self.rows[i];
            out.push(
                TopicKey { server: row.server.clone(), topic: row.topic.clone(), key: row.key.clone() },
            );
            i = i + 1;
        }
        assert(out.deep_view() =~= self.rows.deep_view());
        out
    }
}

proof fn lemma_load_fails_for_good(items: Seq<KeyringItemView>, upto: int)
    requires
        0 <= upto <= items.len(),
        loaded_keys(items.subrange(0, upto)) is None,
    ensures
        loaded_keys(items) is None,
    decreases items.len() - upto,
{
    if upto < items.len() {
        assert(items.subrange(0, upto + 1).drop_last() =~= items.subrange(0, upto));
        lemma_load_fails_for_good(items, upto + 1);
    } else {
        assert(items.subrange(0, upto) =~= items);
    }
}

} // verus!
