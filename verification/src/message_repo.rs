//! The message store: servers, subscriptions and messages, held in memory.
//!
//! No two messages of one server share an id, no two subscriptions share a
//! server and a topic, and messages are kept in the order of their times, so
//! that reading them back needs no sorting.

use vstd::prelude::*;
use crate::error::Error;
use crate::models::{ReceivedMessage, ReceivedMessageView, Subscription, SubscriptionView};
use crate::text::{begins_with, chars_of, has_prefix};

verus! {

/// A message together with the server that it came from.
#[derive(Debug, PartialEq, Eq)]
pub struct StoredMessage {
    pub server: String,
    pub message: ReceivedMessage,
}

/// The view of a [`StoredMessage`].
pub struct StoredMessageView {
    pub server: Seq<char>,
    pub message: ReceivedMessageView,
}

impl DeepView for StoredMessage {
    type V = StoredMessageView;

    open spec fn deep_view(&self) -> StoredMessageView {
        StoredMessageView { server: self.server@, message: self.message@ }
    }
}

impl View for StoredMessage {
    type V = StoredMessageView;

    open spec fn view(&self) -> StoredMessageView {
        self.deep_view()
    }
}

impl StoredMessageView {
    /// Whether the message belongs to `topic` of `server`.
    pub open spec fn belongs_to(self, server: Seq<char>, topic: Seq<char>) -> bool {
        self.server == server && self.message.topic == topic
    }
}

/// What the store holds, as plain sequences.
pub struct DbView {
    /// The known servers, in the order in which they were first named.
    pub servers: Seq<Seq<char>>,
    /// The subscriptions, in the order in which they were inserted.
    pub subscriptions: Seq<SubscriptionView>,
    /// The messages, in the order of their times; among equal times, in the
    /// order in which they were inserted.
    pub messages: Seq<StoredMessageView>,
}

/// Where a message of time `time` goes among `messages`: behind the last
/// message that is not later than it.
pub open spec fn slot_for(messages: Seq<StoredMessageView>, time: u64) -> int
    decreases messages.len(),
{
    if messages.len() == 0 {
        0
    } else if messages.last().message.time <= time {
        messages.len() as int
    } else {
        slot_for(messages.drop_last(), time)
    }
}

/// Whether the times of `messages` never go down.
pub open spec fn in_time_order(messages: Seq<StoredMessageView>) -> bool {
    forall|i: int, j: int|
        0 <= i <= j < messages.len() ==> messages[i].message.time <= messages[j].message.time
}

impl DbView {
    /// The empty store.
    pub open spec fn empty() -> DbView {
        DbView { servers: Seq::empty(), subscriptions: Seq::empty(), messages: Seq::empty() }
    }

    /// The invariant of the store.
    pub open spec fn wf(self) -> bool {
        &&& forall|i: int, j: int|
            0 <= i < j < self.servers.len() ==> self.servers[i] != self.servers[j]
        &&& forall|i: int, j: int|
            0 <= i < j < self.subscriptions.len() ==> !(self.subscriptions[i].server
                == self.subscriptions[j].server && self.subscriptions[i].topic
                == self.subscriptions[j].topic)
        &&& forall|i: int, j: int|
            0 <= i < j < self.messages.len() ==> !(self.messages[i].server
                == self.messages[j].server && self.messages[i].message.id
                == self.messages[j].message.id)
        &&& forall|i: int|
            0 <= i < self.subscriptions.len() ==> self.servers.contains(
                #[trigger] self.subscriptions[i].server,
            )
        &&& forall|i: int|
            0 <= i < self.messages.len() ==> self.servers.contains(
                #[trigger] self.messages[i].server,
            )
        &&& in_time_order(self.messages)
    }

    /// Whether a subscription to `topic` on `server` is stored.
    pub open spec fn has_subscription(self, server: Seq<char>, topic: Seq<char>) -> bool {
        exists|i: int|
            0 <= i < self.subscriptions.len() && #[trigger] self.subscriptions[i].server == server
                && self.subscriptions[i].topic == topic
    }

    /// The stored subscription to `topic` on `server`, where there is one.
    pub open spec fn subscription_of(self, server: Seq<char>, topic: Seq<char>) -> SubscriptionView
        recommends
            self.has_subscription(server, topic),
    {
        self.subscriptions[choose|i: int|
            0 <= i < self.subscriptions.len() && #[trigger] self.subscriptions[i].server == server
                && self.subscriptions[i].topic == topic]
    }

    /// Whether a message with id `id` is stored for `server`.
    pub open spec fn has_message(self, server: Seq<char>, id: Seq<char>) -> bool {
        exists|i: int|
            0 <= i < self.messages.len() && #[trigger] self.messages[i].server == server
                && self.messages[i].message.id == id
    }

    /// The store once `server` is known to it.
    pub open spec fn with_server(self, server: Seq<char>) -> DbView {
        if self.servers.contains(server) {
            self
        } else {
            DbView { servers: self.servers.push(server), ..self }
        }
    }

    /// The messages of `topic` on `server`, in the order of the store.
    pub open spec fn messages_of(self, server: Seq<char>, topic: Seq<char>) -> Seq<
        StoredMessageView,
    > {
        self.messages.filter(|m: StoredMessageView| m.belongs_to(server, topic))
    }

    /// The store after a message that is new to it was inserted.
    pub open spec fn with_message(self, server: Seq<char>, msg: ReceivedMessageView) -> DbView {
        let known = self.with_server(server);
        DbView {
            messages: known.messages.insert(
                slot_for(known.messages, msg.time),
                StoredMessageView { server, message: msg },
            ),
            ..known
        }
    }

    /// The store after a subscription that is new to it was inserted.
    pub open spec fn with_subscription(self, sub: SubscriptionView) -> DbView {
        let known = self.with_server(sub.server);
        DbView { subscriptions: known.subscriptions.push(sub), ..known }
    }

    /// The store after the subscription to `topic` on `server` was removed,
    /// and its messages with it.
    pub open spec fn without_subscription(self, server: Seq<char>, topic: Seq<char>) -> DbView {
        let known = self.with_server(server);
        DbView {
            subscriptions: known.subscriptions.filter(
                |s: SubscriptionView| !(s.server == server && s.topic == topic),
            ),
            messages: known.messages.filter(|m: StoredMessageView| !m.belongs_to(server, topic)),
            ..known
        }
    }

    /// The store after the subscription with the server and topic of `sub`
    /// was replaced by `sub`.
    pub open spec fn with_updated(self, sub: SubscriptionView) -> DbView {
        let known = self.with_server(sub.server);
        DbView {
            subscriptions: known.subscriptions.map_values(
                |s: SubscriptionView|
                    if s.server == sub.server && s.topic == sub.topic {
                        sub
                    } else {
                        s
                    },
            ),
            ..known
        }
    }

    /// The store after the read cursor of the subscription to `topic` on
    /// `server` was set to `value`.
    pub open spec fn with_read_until(self, server: Seq<char>, topic: Seq<char>, value: u64) -> DbView {
        let known = self.with_server(server);
        DbView {
            subscriptions: known.subscriptions.map_values(
                |s: SubscriptionView|
                    if s.server == server && s.topic == topic {
                        SubscriptionView { read_until: value, ..s }
                    } else {
                        s
                    },
            ),
            ..known
        }
    }

    /// The store after the messages of `topic` on `server` were deleted.
    pub open spec fn without_messages(self, server: Seq<char>, topic: Seq<char>) -> DbView {
        let known = self.with_server(server);
        DbView {
            messages: known.messages.filter(|m: StoredMessageView| !m.belongs_to(server, topic)),
            ..known
        }
    }

    /// What a reader of `topic` on `server` gets who asks for the messages
    /// from time `since` on: nothing without a subscription, else the
    /// messages of the topic that are not older, in the order of the store.
    pub open spec fn listed(self, server: Seq<char>, topic: Seq<char>, since: u64) -> Seq<
        ReceivedMessageView,
    > {
        if self.has_subscription(server, topic) {
            self.messages.filter(
                |m: StoredMessageView| m.belongs_to(server, topic) && m.message.time >= since,
            ).map_values(|m: StoredMessageView| m.message)
        } else {
            Seq::empty()
        }
    }
}

/// The store.
#[derive(Debug)]
pub struct Db {
    servers: Vec<String>,
    subscriptions: Vec<Subscription>,
    messages: Vec<StoredMessage>,
}

impl View for Db {
    type V = DbView;

    closed spec fn view(&self) -> DbView {
        DbView {
            servers: self.servers.deep_view(),
            subscriptions: self.subscriptions.deep_view(),
            messages: self.messages.deep_view(),
        }
    }
}

impl Db {
    /// Whether the store's invariant holds.
    pub open spec fn wf(&self) -> bool {
        self@.wf()
    }

    /// An empty store.
    pub fn new() -> (db: Db)
        ensures
            db.wf(),
            db@ == DbView::empty(),
    {
        let db = Db { servers: Vec::new(), subscriptions: Vec::new(), messages: Vec::new() };
        assert(db.servers.deep_view() =~= Seq::empty());
        assert(db.subscriptions.deep_view() =~= Seq::empty());
        assert(db.messages.deep_view() =~= Seq::empty());
        db
    }

    fn find_server(&self, name: &String) -> (r: Option<usize>)
        ensures
            r matches Some(i) ==> i < self.servers.len() && self@.servers[i as int] == name@,
            r is None ==> !self@.servers.contains(name@),
    {
        let mut i: usize = 0;
        while i < self.servers.len()
            invariant
                i <= self.servers.len(),
                forall|k: int| 0 <= k < i ==> self.servers@[k]@ != name@,
            decreases self.servers.len() - i,
        {
            if self.servers[i] == *name {
                return Some(i);
            }
            i = i + 1;
        }
        None
    }

    fn find_subscription(&self, server: &String, topic: &String) -> (r: Option<usize>)
        ensures
            r matches Some(i) ==> i < self.subscriptions.len() && self@.subscriptions[i as int].server
                == server@ && self@.subscriptions[i as int].topic == topic@,
            r is None ==> !self@.has_subscription(server@, topic@),
    {
        let mut i: usize = 0;
        while i < self.subscriptions.len()
            invariant
                i <= self.subscriptions.len(),
                forall|k: int|
                    0 <= k < i ==> !(self.subscriptions@[k].server@ == server@
                        && self.subscriptions@[k].topic@ == topic@),
            decreases self.subscriptions.len() - i,
        {
            if self.subscriptions[i].server == *server && self.subscriptions[i].topic == *topic {
                return Some(i);
            }
            i = i + 1;
        }
        None
    }

    fn find_message(&self, server: &String, id: &String) -> (r: Option<usize>)
        ensures
            r matches Some(i) ==> i < self.messages.len() && self@.messages[i as int].server
                == server@ && self@.messages[i as int].message.id == id@,
            r is None ==> !self@.has_message(server@, id@),
    {
        let mut i: usize = 0;
        while i < self.messages.len()
            invariant
                i <= self.messages.len(),
                forall|k: int|
                    0 <= k < i ==> !(self.messages@[k].server@ == server@
                        && self.messages@[k].message.id@ == id@),
            decreases self.messages.len() - i,
        {
            if self.messages[i].server == *server && self.messages[i].message.id == *id {
                return Some(i);
            }
            i = i + 1;
        }
        None
    }

    /// The number of `server`, counted from 1 in the order in which the
    /// servers were first named; a server that is new to the store is added.
    pub fn get_or_insert_server(&mut self, server: &str) -> (id: u64)
        requires
            old(self).wf(),
        ensures
            final(self).wf(),
            final(self)@ == old(self)@.with_server(server@),
            1 <= id <= final(self)@.servers.len(),
            final(self)@.servers[id - 1] == server@,
    {
        let name: String = server.to_owned();
        match self.find_server(&name) {
            Some(i) => (i + 1) as u64,
            None => {
                self.servers.push(name);
                assert(self.servers.deep_view() =~= old(self).servers.deep_view().push(server@));
                proof {
                    lemma_new_server_keeps_wf(old(self)@, server@);
                }
                self.servers.len() as u64
            },
        }
    }

    fn slot(&self, time: u64) -> (pos: usize)
        ensures
            pos == slot_for(self@.messages, time),
            pos <= self.messages.len(),
    {
        let mut pos: usize = self.messages.len();
        assert(self@.messages.subrange(0, pos as int) =~= self@.messages);
        while pos > 0 && self.messages[pos - 1].message.time > time
            invariant
                pos <= self.messages.len(),
                slot_for(self@.messages, time) == slot_for(
                    self@.messages.subrange(0, pos as int),
                    time,
                ),
            decreases pos,
        {
            assert(self@.messages.subrange(0, pos as int).drop_last() =~= self@.messages.subrange(
                0,
                pos - 1,
            ));
            pos = pos - 1;
        }
        pos
    }

    /// Stores `msg` as a message of `server`. A message whose id is already
    /// stored for that server is refused with `DuplicateMessage`, and the
    /// messages stay as they were; else the message takes its place among
    /// the others by its time. Either way the server is known afterwards.
    pub fn insert_message(&mut self, server: &str, msg: ReceivedMessage) -> (r: Result<(), Error>)
        requires
            old(self).wf(),
        ensures
            final(self).wf(),
            r is Err <==> old(self)@.has_message(server@, msg@.id),
            r is Err ==> r == Err::<(), Error>(Error::DuplicateMessage) && final(self)@ == old(self)@.with_server(server@),
            r is Ok ==> final(self)@ == old(self)@.with_message(server@, msg@),
    {
        let name: String = server.to_owned();
        let _ = self.get_or_insert_server(server);
        match self.find_message(&name, &msg.id) {
            Some(_) => Err(Error::DuplicateMessage),
            None => {
                let pos = self.slot(msg.time);
                let ghost before = self@;
                let stored = StoredMessage { server: name, message: msg };
                self.messages.insert(pos, stored);
                assert(self.messages.deep_view() =~= before.messages.insert(pos as int, stored@));
                proof {
                    lemma_new_message_keeps_wf(before, server@, msg@);
                }
                Ok(())
            },
        }
    }

    /// The messages of `topic` on `server` whose time is `since` or later, in
    /// the order of their times. Without a subscription to the topic there
    /// are none.
    pub fn list_messages(&self, server: &str, topic: &str, since: u64) -> (r: Result<
        Vec<ReceivedMessage>,
        Error,
    >)
        requires
            self.wf(),
        ensures
            r matches Ok(list) && list.deep_view() == self@.listed(server@, topic@, since),
    {
        let server_name: String = server.to_owned();
        let topic_name: String = topic.to_owned();
        let mut out: Vec<ReceivedMessage> = Vec::new();
        if self.find_subscription(&server_name, &topic_name).is_none() {
            assert(out.deep_view() =~= self@.listed(server@, topic@, since));
            return Ok(out);
        }
        let ghost wanted = |m: StoredMessageView|
            m.belongs_to(server@, topic@) && m.message.time >= since;
        let ghost body = |m: StoredMessageView| m.message;
        let mut i: usize = 0;
        assert(self@.messages.subrange(0, 0).filter(wanted) =~= Seq::empty()) by {
            reveal(Seq::filter);
        }
        while i < self.messages.len()
            invariant
                i <= self.messages.len(),
                server_name@ == server@,
                topic_name@ == topic@,
                wanted == |m: StoredMessageView|
                    m.belongs_to(server@, topic@) && m.message.time >= since,
                body == |m: StoredMessageView| m.message,
                out.deep_view() == self@.messages.subrange(0, i as int).filter(wanted).map_values(
                    body,
                ),
            decreases self.messages.len() - i,
        {
            let ghost seen = self@.messages.subrange(0, i as int);
            proof {
                seen.lemma_filter_push(self@.messages[i as int], wanted);
                assert(self@.messages.subrange(0, i + 1) =~= seen.push(self@.messages[i as int]));
            }
            let m = &self.messages[i];
            if m.server == server_name && m.message.topic == topic_name && m.message.time >= since {
                let ghost listed = out.deep_view();
                out.push(m.message.clone());
                assert(out.deep_view() =~= listed.push(self@.messages[i as int].message));
                assert(seen.filter(wanted).push(self@.messages[i as int]).map_values(body)
                    =~= listed.push(self@.messages[i as int].message));
            }
            i = i + 1;
        }
        assert(self@.messages.subrange(0, i as int) =~= self@.messages);
        Ok(out)
    }

    /// Stores a subscription. One whose server and topic are already
    /// subscribed is refused with `Db`, and the subscriptions stay as they
    /// were. Either way the server is known afterwards.
    pub fn insert_subscription(&mut self, sub: Subscription) -> (r: Result<(), Error>)
        requires
            old(self).wf(),
        ensures
            final(self).wf(),
            r is Err <==> old(self)@.has_subscription(sub@.server, sub@.topic),
            r matches Err(e) ==> e is Db && final(self)@ == old(self)@.with_server(sub@.server),
            r is Ok ==> final(self)@ == old(self)@.with_subscription(sub@),
    {
        let _ = self.get_or_insert_server(sub.server.as_str());
        match self.find_subscription(&sub.server, &sub.topic) {
            Some(_) => Err(
                Error::Db(String::from_str("UNIQUE constraint failed: subscription.server, subscription.topic")),
            ),
            None => {
                let ghost before = self@;
                let ghost added = sub@;
                self.subscriptions.push(sub);
                assert(self.subscriptions.deep_view() =~= before.subscriptions.push(added));
                proof {
                    lemma_new_subscription_keeps_wf(old(self)@, added);
                }
                Ok(())
            },
        }
    }

    /// Removes the subscription to `topic` on `server`, and its messages
    /// with it. Without such a subscription nothing is removed and the
    /// answer is `SubscriptionNotFound`. Either way the server is known
    /// afterwards.
    pub fn remove_subscription(&mut self, server: &str, topic: &str) -> (r: Result<(), Error>)
        requires
            old(self).wf(),
        ensures
            final(self).wf(),
            r is Ok <==> old(self)@.has_subscription(server@, topic@),
            r matches Err(e) ==> e is SubscriptionNotFound && final(self)@ == old(self)@.with_server(
                server@,
            ),
            r is Ok ==> final(self)@ == old(self)@.without_subscription(server@, topic@),
    {
        let server_name: String = server.to_owned();
        let topic_name: String = topic.to_owned();
        let _ = self.get_or_insert_server(server);
        match self.find_subscription(&server_name, &topic_name) {
            None => Err(Error::SubscriptionNotFound(String::from_str("removing subscription"))),
            Some(i) => {
                let ghost before = self@;
                let _ = self.subscriptions.remove(i);
                assert(self.subscriptions.deep_view() =~= before.subscriptions.remove(i as int));
                self.drop_messages(&server_name, &topic_name);
                proof {
                    lemma_one_subscription_filtered(before, server@, topic@, i as int);
                    lemma_without_subscription_wf(before, server@, topic@);
                }
                Ok(())
            },
        }
    }

    fn drop_messages(&mut self, server: &String, topic: &String) -> (dropped: usize)
        ensures
            final(self).servers == old(self).servers,
            final(self).subscriptions == old(self).subscriptions,
            final(self)@.messages == old(self)@.messages.filter(
                |m: StoredMessageView| !m.belongs_to(server@, topic@),
            ),
            dropped == old(self)@.messages.len() - final(self)@.messages.len(),
            dropped == 0 <==> !exists|k: int|
                0 <= k < old(self)@.messages.len() && (#[trigger] old(self)@.messages[k]).belongs_to(
                    server@,
                    topic@,
                ),
    {
        let ghost kept_if = |m: StoredMessageView| !m.belongs_to(server@, topic@);
        let ghost all = self@.messages;
        let mut kept: Vec<StoredMessage> = Vec::new();
        let mut dropped: usize = 0;
        let mut i: usize = 0;
        assert(all.subrange(0, 0).filter(kept_if) =~= Seq::empty()) by {
            reveal(Seq::filter);
        }
        while i < self.messages.len()
            invariant
                i <= self.messages.len(),
                all == self@.messages,
                kept_if == |m: StoredMessageView| !m.belongs_to(server@, topic@),
                kept.deep_view() == all.subrange(0, i as int).filter(kept_if),
                dropped + kept.len() == i,
                dropped == 0 <==> forall|k: int|
                    0 <= k < i ==> !(#[trigger] all[k]).belongs_to(server@, topic@),
            decreases self.messages.len() - i,
        {
            let ghost seen = all.subrange(0, i as int);
            proof {
                seen.lemma_filter_push(all[i as int], kept_if);
                assert(all.subrange(0, i + 1) =~= seen.push(all[i as int]));
            }
            let m = &self.messages[i];
            if m.server == *server && m.message.topic == *topic {
                assert(all[i as int].belongs_to(server@, topic@));
                dropped = dropped + 1;
            } else {
                kept.push(StoredMessage { server: m.server.clone(), message: m.message.clone() });
                assert(kept.deep_view() =~= seen.filter(kept_if).push(all[i as int]));
            }
            i = i + 1;
        }
        assert(all.subrange(0, i as int) =~= all);
        self.messages = kept;
        dropped
    }

    /// The stored subscription to `topic` on `server`, if there is one.
    pub fn get_subscription(&self, server: &str, topic: &str) -> (r: Option<Subscription>)
        requires
            self.wf(),
        ensures
            r is Some <==> self@.has_subscription(server@, topic@),
            r matches Some(sub) ==> sub@ == self@.subscription_of(server@, topic@),
    {
        let server_name: String = server.to_owned();
        let topic_name: String = topic.to_owned();
        match self.find_subscription(&server_name, &topic_name) {
            Some(i) => {
                proof {
                    let k = choose|k: int|
                        0 <= k < self@.subscriptions.len() && #[trigger] self@.subscriptions[k].server
                            == server@ && self@.subscriptions[k].topic == topic@;
                    assert(k == i);
                }
                Some(self.subscriptions[i].clone())
            },
            None => None,
        }
    }

    /// All subscriptions, in the order in which they were inserted.
    pub fn list_subscriptions(&mut self) -> (r: Result<Vec<Subscription>, Error>)
        requires
            old(self).wf(),
        ensures
            final(self)@ == old(self)@,
            r matches Ok(list) && list.deep_view() == old(self)@.subscriptions,
    {
        let mut out: Vec<Subscription> = Vec::new();
        let mut i: usize = 0;
        while i < self.subscriptions.len()
            invariant
                *self == *old(self),
                i <= self.subscriptions.len(),
                out.len() == i,
                forall|k: int| 0 <= k < i ==> out@[k]@ == self.subscriptions@[k]@,
            decreases self.subscriptions.len() - i,
        {
            out.push(self.subscriptions[i].clone());
            i = i + 1;
        }
        assert(out.deep_view() =~= self@.subscriptions);
        Ok(out)
    }

    /// Replaces the stored subscription that has the server and topic of
    /// `sub` by `sub`. Without such a subscription nothing changes and the
    /// answer is `SubscriptionNotFound`. Either way the server is known
    /// afterwards.
    pub fn update_subscription(&mut self, sub: Subscription) -> (r: Result<(), Error>)
        requires
            old(self).wf(),
        ensures
            final(self).wf(),
            r is Ok <==> old(self)@.has_subscription(sub@.server, sub@.topic),
            r matches Err(e) ==> e is SubscriptionNotFound && final(self)@ == old(self)@.with_server(
                sub@.server,
            ),
            r is Ok ==> final(self)@ == old(self)@.with_updated(sub@),
    {
        let _ = self.get_or_insert_server(sub.server.as_str());
        match self.find_subscription(&sub.server, &sub.topic) {
            None => Err(Error::SubscriptionNotFound(String::from_str("updating subscription"))),
            Some(i) => {
                let ghost before = self@;
                let ghost changed = sub@;
                self.subscriptions.set(i, sub);
                assert(self.subscriptions.deep_view() =~= before.subscriptions.update(
                    i as int,
                    changed,
                ));
                proof {
                    lemma_one_subscription_updated(old(self)@, changed, i as int);
                }
                Ok(())
            },
        }
    }

    /// Sets the read cursor of the subscription to `topic` on `server`.
    /// Without such a subscription nothing changes and the answer is
    /// `SubscriptionNotFound`. Either way the server is known afterwards.
    pub fn update_read_until(&mut self, server: &str, topic: &str, value: u64) -> (r: Result<
        (),
        Error,
    >)
        requires
            old(self).wf(),
        ensures
            final(self).wf(),
            r is Ok <==> old(self)@.has_subscription(server@, topic@),
            r matches Err(e) ==> e is SubscriptionNotFound && final(self)@ == old(self)@.with_server(
                server@,
            ),
            r is Ok ==> final(self)@ == old(self)@.with_read_until(server@, topic@, value),
    {
        let server_name: String = server.to_owned();
        let topic_name: String = topic.to_owned();
        let _ = self.get_or_insert_server(server);
        match self.find_subscription(&server_name, &topic_name) {
            None => Err(Error::SubscriptionNotFound(String::from_str("updating read_until"))),
            Some(i) => {
                let ghost before = self@;
                let mut changed = self.subscriptions[i].clone();
                changed.read_until = value;
                let ghost row = changed@;
                self.subscriptions.set(i, changed);
                assert(self.subscriptions.deep_view() =~= before.subscriptions.update(i as int, row));
                proof {
                    lemma_one_subscription_updated(old(self)@, row, i as int);
                    assert(old(self)@.with_updated(row).subscriptions =~= old(self)@.with_read_until(server@, topic@, value).subscriptions);
                }
                Ok(())
            },
        }
    }

    /// Deletes the messages of `topic` on `server`. Where there were none,
    /// the answer is `SubscriptionNotFound`. Either way the server is known
    /// afterwards.
    pub fn delete_messages(&mut self, server: &str, topic: &str) -> (r: Result<(), Error>)
        requires
            old(self).wf(),
        ensures
            final(self).wf(),
            final(self)@ == old(self)@.without_messages(server@, topic@),
            r is Ok <==> old(self)@.messages_of(server@, topic@).len() > 0,
            r matches Err(e) ==> e is SubscriptionNotFound,
    {
        let server_name: String = server.to_owned();
        let topic_name: String = topic.to_owned();
        let _ = self.get_or_insert_server(server);
        let ghost before = self@;
        let dropped = self.drop_messages(&server_name, &topic_name);
        proof {
            lemma_without_messages_wf(before, server@, topic@);
            lemma_messages_of_empty(before.messages, server@, topic@);
        }
        if dropped == 0 {
            Err(Error::SubscriptionNotFound(String::from_str("deleting messages")))
        } else {
            Ok(())
        }
    }

    /// The time of the latest message of `topic` on `server`, if there is
    /// any message of it.
    pub fn get_last_message_time(&self, server: &str, topic: &str) -> (r: Result<Option<u64>, Error>)
        requires
            self.wf(),
        ensures
            r matches Ok(last) && is_latest_time(self@.messages, server@, topic@, last),
    {
        let server_name: String = server.to_owned();
        let topic_name: String = topic.to_owned();
        let mut last: Option<u64> = None;
        let mut i: usize = 0;
        while i < self.messages.len()
            invariant
                i <= self.messages.len(),
                server_name@ == server@,
                topic_name@ == topic@,
                is_latest_time(self@.messages.subrange(0, i as int), server@, topic@, last),
            decreases self.messages.len() - i,
        {
            let ghost seen = self@.messages.subrange(0, i as int);
            let ghost next = self@.messages.subrange(0, i + 1);
            assert(forall|k: int| 0 <= k < i ==> next[k] == seen[k]);
            assert(next[i as int] == self@.messages[i as int]);
            let m = &self.messages[i];
            if m.server == server_name && m.message.topic == topic_name {
                let newer = match last {
                    Some(t) => m.message.time > t,
                    None => true,
                };
                if newer {
                    last = Some(m.message.time);
                }
            }
            i = i + 1;
        }
        assert(self@.messages.subrange(0, i as int) =~= self@.messages);
        Ok(last)
    }
}

/// Whether `last` is the latest time among the messages of `topic` on
/// `server`: none where there is no such message, else the time of one of
/// them that none of them exceeds.
pub open spec fn is_latest_time(
    messages: Seq<StoredMessageView>,
    server: Seq<char>,
    topic: Seq<char>,
    last: Option<u64>,
) -> bool {
    match last {
        None => forall|k: int|
            0 <= k < messages.len() ==> !(#[trigger] messages[k]).belongs_to(server, topic),
        Some(t) => {
            &&& exists|k: int|
                0 <= k < messages.len() && (#[trigger] messages[k]).belongs_to(server, topic)
                    && messages[k].message.time == t
            &&& forall|k: int|
                0 <= k < messages.len() && (#[trigger] messages[k]).belongs_to(server, topic)
                    ==> messages[k].message.time <= t
        },
    }
}

/// A store stays well formed when a server is added that it did not know.
pub proof fn lemma_new_server_keeps_wf(db: DbView, server: Seq<char>)
    requires
        db.wf(),
    ensures
        db.with_server(server).wf(),
        db.with_server(server).servers.contains(server),
{
    let v = db.with_server(server);
    if !db.servers.contains(server) {
        assert(v.servers[db.servers.len() as int] == server);
        assert forall|k: int| 0 <= k < v.subscriptions.len() implies v.servers.contains(
            #[trigger] v.subscriptions[k].server,
        ) by {
            assert(db.servers.contains(db.subscriptions[k].server));
            let w = choose|w: int|
                0 <= w < db.servers.len() && db.servers[w] == db.subscriptions[k].server;
            assert(v.servers[w] == v.subscriptions[k].server);
        }
        assert forall|k: int| 0 <= k < v.messages.len() implies v.servers.contains(
            #[trigger] v.messages[k].server,
        ) by {
            assert(db.servers.contains(db.messages[k].server));
            let w = choose|w: int|
                0 <= w < db.servers.len() && db.servers[w] == db.messages[k].server;
            assert(v.servers[w] == v.messages[k].server);
        }
    }
}

/// In a sequence that is in time order, the slot for a time lies behind
/// every message that is not later and before every message that is.
pub proof fn lemma_slot_range(messages: Seq<StoredMessageView>, time: u64)
    requires
        in_time_order(messages),
    ensures
        0 <= slot_for(messages, time) <= messages.len(),
        forall|k: int|
            0 <= k < slot_for(messages, time) ==> (#[trigger] messages[k]).message.time <= time,
        forall|k: int|
            slot_for(messages, time) <= k < messages.len() ==> (#[trigger] messages[k]).message.time
                > time,
    decreases messages.len(),
{
    if messages.len() > 0 && messages.last().message.time > time {
        let rest = messages.drop_last();
        assert forall|i: int, j: int| 0 <= i <= j < rest.len() implies rest[i].message.time
            <= rest[j].message.time by {
            assert(rest[i] == messages[i] && rest[j] == messages[j]);
        }
        lemma_slot_range(rest, time);
        assert forall|k: int| 0 <= k < slot_for(messages, time) implies (
        #[trigger] messages[k]).message.time <= time by {
            assert(messages[k] == rest[k]);
        }
        assert forall|k: int| slot_for(messages, time) <= k < messages.len() implies (
        #[trigger] messages[k]).message.time > time by {
            if k < rest.len() {
                assert(messages[k] == rest[k]);
            }
        }
    }
}

/// A store stays well formed when a message is inserted whose id is new to
/// its server.
pub proof fn lemma_new_message_keeps_wf(db: DbView, server: Seq<char>, msg: ReceivedMessageView)
    requires
        db.wf(),
        !db.has_message(server, msg.id),
    ensures
        db.with_message(server, msg).wf(),
        db.with_message(server, msg).messages.len() == db.messages.len() + 1,
        db.with_message(server, msg).has_message(server, msg.id),
{
    lemma_new_server_keeps_wf(db, server);
    let known = db.with_server(server);
    let at = slot_for(known.messages, msg.time);
    lemma_slot_range(known.messages, msg.time);
    let row = StoredMessageView { server, message: msg };
    let v = db.with_message(server, msg);
    let old_index = |k: int| if k < at { k } else { k - 1 };
    assert(v.messages[at] == row);
    assert(v.messages[at].server == server && v.messages[at].message.id == msg.id);
    assert forall|k: int| 0 <= k < v.messages.len() && k != at implies v.messages[k]
        == known.messages[old_index(k)] by {}
    assert forall|i: int, j: int| 0 <= i < j < v.messages.len() implies !(v.messages[i].server
        == v.messages[j].server && v.messages[i].message.id == v.messages[j].message.id) by {
        if i == at {
            assert(known.messages[old_index(j)] == v.messages[j]);
        } else if j == at {
            assert(known.messages[old_index(i)] == v.messages[i]);
        } else {
            assert(known.messages[old_index(i)] == v.messages[i]);
            assert(known.messages[old_index(j)] == v.messages[j]);
        }
    }
    assert forall|k: int| 0 <= k < v.messages.len() implies v.servers.contains(
        #[trigger] v.messages[k].server,
    ) by {
        if k != at {
            assert(known.messages[old_index(k)] == v.messages[k]);
            assert(known.servers.contains(known.messages[old_index(k)].server));
        }
    }
    assert forall|i: int, j: int| 0 <= i <= j < v.messages.len() implies v.messages[i].message.time
        <= v.messages[j].message.time by {
        if i != at {
            assert(known.messages[old_index(i)] == v.messages[i]);
        }
        if j != at {
            assert(known.messages[old_index(j)] == v.messages[j]);
        }
    }
}

/// A store stays well formed when a subscription is inserted whose server
/// and topic are new to it, and the subscription is then among the stored.
pub proof fn lemma_new_subscription_keeps_wf(db: DbView, sub: SubscriptionView)
    requires
        db.wf(),
        !db.has_subscription(sub.server, sub.topic),
    ensures
        db.with_subscription(sub).wf(),
        db.with_subscription(sub).subscriptions.contains(sub),
        db.with_subscription(sub).has_subscription(sub.server, sub.topic),
{
    lemma_new_server_keeps_wf(db, sub.server);
    let known = db.with_server(sub.server);
    let v = db.with_subscription(sub);
    assert(v.subscriptions[known.subscriptions.len() as int] == sub);
    assert forall|i: int, j: int| 0 <= i < j < v.subscriptions.len() implies !(
    v.subscriptions[i].server == v.subscriptions[j].server && v.subscriptions[i].topic
        == v.subscriptions[j].topic) by {
        assert(v.subscriptions[i] == db.subscriptions[i]);
    }
    assert forall|k: int| 0 <= k < v.subscriptions.len() implies v.servers.contains(
        #[trigger] v.subscriptions[k].server,
    ) by {
        if k < known.subscriptions.len() {
            assert(known.servers.contains(known.subscriptions[k].server));
        }
    }
}

/// Every element of a filtered sequence stands in the sequence, and the
/// elements keep their order: for two places of the filtered sequence there
/// are two places of the sequence, in the same order, that hold the same.
pub proof fn lemma_filter_keeps_order<A>(s: Seq<A>, keep: spec_fn(A) -> bool)
    ensures
        forall|i: int, j: int|
            0 <= i < j < s.filter(keep).len() ==> exists|a: int, b: int|
                0 <= a < b < s.len() && s[a] == #[trigger] s.filter(keep)[i] && s[b]
                    == #[trigger] s.filter(keep)[j],
        forall|i: int|
            0 <= i < s.filter(keep).len() ==> exists|a: int|
                0 <= a < s.len() && s[a] == #[trigger] s.filter(keep)[i],
    decreases s.len(),
{
    reveal(Seq::filter);
    if s.len() > 0 {
        let rest = s.drop_last();
        lemma_filter_keeps_order(rest, keep);
        let f = s.filter(keep);
        let g = rest.filter(keep);
        assert forall|i: int| 0 <= i < f.len() implies exists|a: int|
            0 <= a < s.len() && s[a] == #[trigger] f[i] by {
            if i < g.len() {
                assert(f[i] == g[i]);
                let a = choose|a: int| 0 <= a < rest.len() && rest[a] == g[i];
                assert(s[a] == f[i]);
            } else {
                assert(s[s.len() - 1] == f[i]);
            }
        }
        assert forall|i: int, j: int| 0 <= i < j < f.len() implies exists|a: int, b: int|
            0 <= a < b < s.len() && s[a] == #[trigger] f[i] && s[b] == #[trigger] f[j] by {
            if j < g.len() {
                assert(f[i] == g[i] && f[j] == g[j]);
                let (a, b) = choose|a: int, b: int|
                    0 <= a < b < rest.len() && rest[a] == g[i] && rest[b] == g[j];
                assert(s[a] == f[i] && s[b] == f[j]);
            } else {
                assert(f[i] == g[i]);
                let a = choose|a: int| 0 <= a < rest.len() && rest[a] == g[i];
                assert(s[a] == f[i] && s[s.len() - 1] == f[j]);
            }
        }
    }
}

/// A store stays well formed when messages are taken out of it.
pub proof fn lemma_fewer_messages_keep_wf(db: DbView, keep: spec_fn(StoredMessageView) -> bool)
    requires
        db.wf(),
    ensures
        (DbView { messages: db.messages.filter(keep), ..db }).wf(),
{
    let f = db.messages.filter(keep);
    lemma_filter_keeps_order(db.messages, keep);
    assert forall|i: int, j: int| 0 <= i < j < f.len() implies !(f[i].server == f[j].server
        && f[i].message.id == f[j].message.id) && f[i].message.time <= f[j].message.time by {
        let (a, b) = choose|a: int, b: int|
            0 <= a < b < db.messages.len() && db.messages[a] == f[i] && db.messages[b] == f[j];
    }
    assert forall|i: int| 0 <= i < f.len() implies db.servers.contains(#[trigger] f[i].server) by {
        let a = choose|a: int| 0 <= a < db.messages.len() && db.messages[a] == f[i];
        assert(db.servers.contains(db.messages[a].server));
    }
}

/// A store stays well formed when subscriptions are taken out of it.
pub proof fn lemma_fewer_subscriptions_keep_wf(db: DbView, keep: spec_fn(SubscriptionView) -> bool)
    requires
        db.wf(),
    ensures
        (DbView { subscriptions: db.subscriptions.filter(keep), ..db }).wf(),
{
    let f = db.subscriptions.filter(keep);
    lemma_filter_keeps_order(db.subscriptions, keep);
    assert forall|i: int, j: int| 0 <= i < j < f.len() implies !(f[i].server == f[j].server
        && f[i].topic == f[j].topic) by {
        let (a, b) = choose|a: int, b: int|
            0 <= a < b < db.subscriptions.len() && db.subscriptions[a] == f[i]
                && db.subscriptions[b] == f[j];
    }
    assert forall|i: int| 0 <= i < f.len() implies db.servers.contains(#[trigger] f[i].server) by {
        let a = choose|a: int| 0 <= a < db.subscriptions.len() && db.subscriptions[a] == f[i];
        assert(db.servers.contains(db.subscriptions[a].server));
    }
}

/// Removing a subscription and its messages keeps the store well formed, and
/// neither the subscription nor any message of it is left.
pub proof fn lemma_without_subscription_wf(db: DbView, server: Seq<char>, topic: Seq<char>)
    requires
        db.wf(),
    ensures
        db.without_subscription(server, topic).wf(),
        !db.without_subscription(server, topic).has_subscription(server, topic),
        db.without_subscription(server, topic).messages_of(server, topic).len() == 0,
{
    lemma_new_server_keeps_wf(db, server);
    let known = db.with_server(server);
    let keep_sub = |s: SubscriptionView| !(s.server == server && s.topic == topic);
    let keep_msg = |m: StoredMessageView| !m.belongs_to(server, topic);
    lemma_fewer_subscriptions_keep_wf(known, keep_sub);
    lemma_fewer_messages_keep_wf(
        DbView { subscriptions: known.subscriptions.filter(keep_sub), ..known },
        keep_msg,
    );
    let v = db.without_subscription(server, topic);
    broadcast use vstd::seq_lib::group_filter_ensures;
    assert forall|k: int| 0 <= k < v.subscriptions.len() implies !(
    #[trigger] v.subscriptions[k].server == server && v.subscriptions[k].topic == topic) by {
        assert(keep_sub(v.subscriptions[k]));
    }
    lemma_messages_of_empty(v.messages, server, topic);
    assert forall|k: int| 0 <= k < v.messages.len() implies !(#[trigger] v.messages[k]).belongs_to(
        server,
        topic,
    ) by {
        assert(keep_msg(v.messages[k]));
    }
}

/// Deleting the messages of a topic keeps the store well formed.
pub proof fn lemma_without_messages_wf(db: DbView, server: Seq<char>, topic: Seq<char>)
    requires
        db.wf(),
    ensures
        db.without_messages(server, topic).wf(),
{
    lemma_new_server_keeps_wf(db, server);
    lemma_fewer_messages_keep_wf(
        db.with_server(server),
        |m: StoredMessageView| !m.belongs_to(server, topic),
    );
}

/// A topic has messages exactly when some stored message belongs to it.
pub proof fn lemma_messages_of_empty(
    messages: Seq<StoredMessageView>,
    server: Seq<char>,
    topic: Seq<char>,
)
    ensures
        messages.filter(|m: StoredMessageView| m.belongs_to(server, topic)).len() > 0
            <==> exists|k: int|
            0 <= k < messages.len() && (#[trigger] messages[k]).belongs_to(server, topic),
{
    let of = |m: StoredMessageView| m.belongs_to(server, topic);
    let f = messages.filter(of);
    broadcast use vstd::seq_lib::group_filter_ensures;
    lemma_filter_keeps_order(messages, of);
    if f.len() > 0 {
        assert(of(f[0]));
        let a = choose|a: int| 0 <= a < messages.len() && messages[a] == f[0];
        assert(messages[a].belongs_to(server, topic));
    }
    if exists|k: int| 0 <= k < messages.len() && (#[trigger] messages[k]).belongs_to(server, topic) {
        let k = choose|k: int|
            0 <= k < messages.len() && (#[trigger] messages[k]).belongs_to(server, topic);
        assert(of(messages[k]));
        assert(f.contains(messages[k]));
    }
}

/// Where all but one element of a sequence are kept, filtering removes
/// just that element.
pub proof fn lemma_filter_removes_one<A>(s: Seq<A>, keep: spec_fn(A) -> bool, at: int)
    requires
        0 <= at < s.len(),
        !keep(s[at]),
        forall|k: int| 0 <= k < s.len() && k != at ==> keep(#[trigger] s[k]),
    ensures
        s.filter(keep) == s.remove(at),
    decreases s.len(),
{
    reveal(Seq::filter);
    let rest = s.drop_last();
    if at == s.len() - 1 {
        lemma_filter_keeps_all(rest, keep);
        assert(s.remove(at) =~= rest);
    } else {
        lemma_filter_removes_one(rest, keep, at);
        assert(s.remove(at) =~= rest.remove(at).push(s.last()));
    }
}

/// Where every element of a sequence is kept, filtering changes nothing.
pub proof fn lemma_filter_keeps_all<A>(s: Seq<A>, keep: spec_fn(A) -> bool)
    requires
        forall|k: int| 0 <= k < s.len() ==> keep(#[trigger] s[k]),
    ensures
        s.filter(keep) == s,
    decreases s.len(),
{
    reveal(Seq::filter);
    if s.len() > 0 {
        lemma_filter_keeps_all(s.drop_last(), keep);
        assert(s.drop_last().push(s.last()) =~= s);
    }
}

proof fn lemma_one_subscription_filtered(db: DbView, server: Seq<char>, topic: Seq<char>, at: int)
    requires
        db.wf(),
        0 <= at < db.subscriptions.len(),
        db.subscriptions[at].server == server,
        db.subscriptions[at].topic == topic,
    ensures
        db.subscriptions.filter(|s: SubscriptionView| !(s.server == server && s.topic == topic))
            == db.subscriptions.remove(at),
{
    lemma_filter_removes_one(
        db.subscriptions,
        |s: SubscriptionView| !(s.server == server && s.topic == topic),
        at,
    );
}

/// Setting a read cursor keeps the store well formed.
pub proof fn lemma_read_until_keeps_wf(db: DbView, server: Seq<char>, topic: Seq<char>, value: u64)
    requires
        db.wf(),
    ensures
        db.with_read_until(server, topic, value).wf(),
        db.with_read_until(server, topic, value).messages == db.messages,
{
    lemma_new_server_keeps_wf(db, server);
    let known = db.with_server(server);
    let v = db.with_read_until(server, topic, value);
    assert forall|k: int| 0 <= k < v.subscriptions.len() implies v.servers.contains(
        #[trigger] v.subscriptions[k].server,
    ) by {
        assert(known.servers.contains(known.subscriptions[k].server));
    }
}

proof fn lemma_one_subscription_updated(db: DbView, sub: SubscriptionView, at: int)
    requires
        db.wf(),
        0 <= at < db.subscriptions.len(),
        db.subscriptions[at].server == sub.server,
        db.subscriptions[at].topic == sub.topic,
    ensures
        db.with_updated(sub).subscriptions == db.subscriptions.update(at, sub),
        db.with_updated(sub).wf(),
{
    lemma_new_server_keeps_wf(db, sub.server);
    let v = db.with_updated(sub);
    assert(v.subscriptions =~= db.subscriptions.update(at, sub));
    assert forall|k: int| 0 <= k < v.subscriptions.len() implies v.servers.contains(
        #[trigger] v.subscriptions[k].server,
    ) by {
        assert(db.with_server(sub.server).servers.contains(db.subscriptions[k].server));
    }
}

/// What a refused insertion of a message means, by the text that the
/// database gave for it: a broken uniqueness rule means that the message is
/// stored already; anything else is handed on as `Db` with the text.
pub fn classify_insert_failure(text: &str) -> (e: Error)
    ensures
        begins_with(text@, "UNIQUE constraint failed"@) ==> e == Error::DuplicateMessage,
        !begins_with(text@, "UNIQUE constraint failed"@) ==> (e matches Error::Db(t) && t@
            == text@),
{
    let chars = chars_of(text);
    let prefix = chars_of("UNIQUE constraint failed");
    if has_prefix(&chars, &prefix) {
        Error::DuplicateMessage
    } else {
        Error::Db(text.to_owned())
    }
}

/// What the number of rows that a statement changed means: none is
/// `SubscriptionNotFound`, with `context` saying what was being done.
pub fn rows_changed(rows: usize, context: &str) -> (r: Result<(), Error>)
    ensures
        r is Ok <==> rows > 0,
        r matches Err(e) ==> (e matches Error::SubscriptionNotFound(what) && what@ == context@),
{
    if rows == 0 {
        Err(Error::SubscriptionNotFound(context.to_owned()))
    } else {
        Ok(())
    }
}

/// The version of the layout that this store understands.
pub const SCHEMA_VERSION: i32 = 2;

/// The versions that a persisted store of version `version` still has to be
/// brought to, one after the other: those from 1 to [`SCHEMA_VERSION`] that
/// are above `version`.
pub open spec fn migrations_from(version: i32) -> Seq<i32> {
    let done: int = if version < 0 {
        0
    } else {
        version as int
    };
    Seq::new((SCHEMA_VERSION - done) as nat, |i: int| (done + 1 + i) as i32)
}

/// Says which migrations a persisted store of version `version` needs. A
/// store that is newer than this code understands is refused with `Db`.
pub fn pending_migrations(version: i32) -> (r: Result<Vec<i32>, Error>)
    ensures
        r is Ok <==> version <= SCHEMA_VERSION,
        r matches Ok(steps) ==> steps@ == migrations_from(version),
        r matches Err(e) ==> e is Db,
{
    if version > SCHEMA_VERSION {
        return Err(Error::Db(String::from_str("the store is newer than this program")));
    }
    let done: i32 = if version < 0 {
        0
    } else {
        version
    };
    let mut steps: Vec<i32> = Vec::new();
    let mut next: i32 = done + 1;
    while next <= SCHEMA_VERSION
        invariant
            0 <= done <= SCHEMA_VERSION,
            done + 1 <= next <= SCHEMA_VERSION + 1,
            steps@ == Seq::new((next - 1 - done) as nat, |i: int| (done + 1 + i) as i32),
        decreases SCHEMA_VERSION + 1 - next,
    {
        steps.push(next);
        assert(steps@ =~= Seq::new((next - done) as nat, |i: int| (done + 1 + i) as i32));
        next = next + 1;
    }
    Ok(steps)
}

/// What goes in comes out: once a subscription has been inserted, the list
/// of subscriptions holds it, field for field, next to every subscription
/// that the list held before.
pub proof fn lemma_inserted_subscription_is_listed(db: DbView, sub: SubscriptionView)
    requires
        db.wf(),
        !db.has_subscription(sub.server, sub.topic),
    ensures
        db.with_subscription(sub).subscriptions.contains(sub),
        db.with_subscription(sub).subscriptions.len() == db.subscriptions.len() + 1,
        forall|other: SubscriptionView|
            db.subscriptions.contains(other) ==> db.with_subscription(sub).subscriptions.contains(
                other,
            ),
{
    let v = db.with_subscription(sub);
    assert(v.subscriptions[db.subscriptions.len() as int] == sub);
    assert forall|other: SubscriptionView| db.subscriptions.contains(other) implies v.subscriptions.contains(
        other,
    ) by {
        let k = choose|k: int| 0 <= k < db.subscriptions.len() && db.subscriptions[k] == other;
        assert(v.subscriptions[k] == other);
    }
}

/// Reading is in order: the messages that a reader gets never go back in
/// time, and none of them is older than the reader asked for.
pub proof fn lemma_listed_in_time_order(db: DbView, server: Seq<char>, topic: Seq<char>, since: u64)
    requires
        db.wf(),
    ensures
        forall|i: int, j: int|
            0 <= i <= j < db.listed(server, topic, since).len() ==> db.listed(
                server,
                topic,
                since,
            )[i].time <= db.listed(server, topic, since)[j].time,
        forall|i: int|
            0 <= i < db.listed(server, topic, since).len() ==> {
                &&& (#[trigger] db.listed(server, topic, since)[i]).time >= since
                &&& db.listed(server, topic, since)[i].topic == topic
            },
{
    broadcast use vstd::seq_lib::group_filter_ensures;

    let wanted = |m: StoredMessageView| m.belongs_to(server, topic) && m.message.time >= since;
    let f = db.messages.filter(wanted);
    let l = db.listed(server, topic, since);
    if db.has_subscription(server, topic) {
        lemma_filter_keeps_order(db.messages, wanted);
        assert forall|i: int, j: int| 0 <= i <= j < l.len() implies l[i].time <= l[j].time by {
            if i < j {
                let (a, b) = choose|a: int, b: int|
                    0 <= a < b < db.messages.len() && db.messages[a] == f[i] && db.messages[b]
                        == f[j];
            }
        }
        assert forall|i: int| 0 <= i < l.len() implies (#[trigger] l[i]).time >= since
            && l[i].topic == topic by {
            assert(wanted(f[i]));
        }
    }
}

} // verus!
