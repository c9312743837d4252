//! The registry: the store, the credential vault and the live
//! subscriptions, each with its listener. No server and topic has more than
//! one live subscription.

use vstd::prelude::*;
use crate::credentials::{Credential, CredentialView, Credentials, LoginTable};
use crate::error::Error;
use crate::keys::{by_key, keys_of, KeyTable, Keys};
use crate::listener::{
    random_up_to, Listener, ListenerCommand, ListenerEffect, ListenerInput, MAX_JITTER,
};
use crate::http::{resume_from, resume_point, subscribe_url, subscribe_url_of};
use crate::message_repo::{is_latest_time, Db, DbView};
use crate::models::{
    refusal_of, Account, ReceivedMessage, ReceivedMessageView, Subscription, SubscriptionView,
    TopicKey,
};
use crate::schedule::{local_now, LocalTime};
use crate::subscription::{
    after_message, command_done, lemma_message_keeps_order, CommandReply, Delivery, DeliveryView,
    SubscriptionActor, SubscriptionCommand,
};
use crate::vault::distinct_keys;

verus! {

/// A live subscription, as the registry sees it.
pub struct LiveView {
    pub model: SubscriptionView,
    pub listener: Listener,
}

/// A live subscription: its actor and its listener.
#[derive(Debug)]
pub struct Handle {
    actor: SubscriptionActor,
    listener: Listener,
}

impl DeepView for Handle {
    type V = LiveView;

    closed spec fn deep_view(&self) -> LiveView {
        LiveView { model: self.actor@, listener: self.listener }
    }
}

/// Whether one of `live` is the subscription to `topic` on `server`.
pub open spec fn is_live(live: Seq<LiveView>, server: Seq<char>, topic: Seq<char>) -> bool {
    exists|i: int|
        0 <= i < live.len() && (#[trigger] live[i]).model.server == server && live[i].model.topic
            == topic
}

/// Whether no two of `live` have the same server and topic.
pub open spec fn distinct_live(live: Seq<LiveView>) -> bool {
    forall|i: int, j: int|
        0 <= i < j < live.len() ==> !(live[i].model.server == live[j].model.server
            && live[i].model.topic == live[j].model.topic)
}

/// The place among `live` of the subscription to `topic` on `server`.
pub open spec fn live_index(live: Seq<LiveView>, server: Seq<char>, topic: Seq<char>) -> int
    recommends
        is_live(live, server, topic),
{
    choose|i: int|
        0 <= i < live.len() && (#[trigger] live[i]).model.server == server && live[i].model.topic
            == topic
}

/// A live subscription as it begins: the record, and a listener that has
/// not begun.
pub open spec fn begun(model: SubscriptionView) -> LiveView {
    LiveView { model, listener: Listener::initial() }
}

/// `live`, and behind it a new live subscription for each of `rows` that
/// had none, in the order of the rows.
pub open spec fn with_handles_for(live: Seq<LiveView>, rows: Seq<SubscriptionView>) -> Seq<LiveView>
    decreases rows.len(),
{
    if rows.len() == 0 {
        live
    } else {
        let before = with_handles_for(live, rows.drop_last());
        if is_live(before, rows.last().server, rows.last().topic) {
            before
        } else {
            before.push(begun(rows.last()))
        }
    }
}

/// What the registry holds.
pub struct RegistryView {
    pub db: DbView,
    pub keys: KeyTable,
    pub logins: LoginTable,
    pub live: Seq<LiveView>,
}

impl RegistryView {
    /// The record that a new subscription to `topic` on `server` starts
    /// from: the stored one, or a fresh one where none is stored.
    pub open spec fn record_for(self, server: Seq<char>, topic: Seq<char>) -> SubscriptionView {
        if self.db.has_subscription(server, topic) {
            self.db.subscription_of(server, topic)
        } else {
            SubscriptionView::fresh(server, topic)
        }
    }

    /// The registry after a subscription to `topic` on `server` was asked
    /// for: the store has a record, and a live subscription exists.
    pub open spec fn subscribed(self, server: Seq<char>, topic: Seq<char>) -> RegistryView {
        RegistryView {
            db: if self.db.has_subscription(server, topic) {
                self.db
            } else {
                self.db.with_subscription(SubscriptionView::fresh(server, topic))
            },
            live: if is_live(self.live, server, topic) {
                self.live
            } else {
                self.live.push(begun(self.record_for(server, topic)))
            },
            ..self
        }
    }

    /// The registry after the live subscription to `topic` on `server`
    /// handled `msg` at the moment `now`, and what is to be delivered: the
    /// subscription and the store are as [`after_message`] says, and
    /// nothing else changes.
    pub open spec fn after_delivery(
        self,
        server: Seq<char>,
        topic: Seq<char>,
        msg: ReceivedMessageView,
        now: LocalTime,
    ) -> (RegistryView, DeliveryView) {
        let at = live_index(self.live, server, topic);
        let outcome = after_message(self.live[at].model, self.db, msg, now);
        (
            RegistryView {
                db: outcome.db,
                live: self.live.update(
                    at,
                    LiveView { model: outcome.model, listener: self.live[at].listener },
                ),
                ..self
            },
            outcome.delivery,
        )
    }

    /// The registry after the listener of the live subscription to `topic`
    /// on `server` took `input`, and what the caller is to do.
    pub open spec fn after_input(
        self,
        server: Seq<char>,
        topic: Seq<char>,
        input: ListenerInput,
        jitter: u32,
    ) -> (RegistryView, Seq<ListenerEffect>) {
        let at = live_index(self.live, server, topic);
        let next = self.live[at].listener.next(input, jitter);
        (
            RegistryView {
                live: self.live.update(
                    at,
                    LiveView { model: self.live[at].model, listener: next.0 },
                ),
                ..self
            },
            next.1,
        )
    }

    /// The registry after the live subscription to `topic` on `server` was
    /// ended and its record and messages were removed from the store.
    pub open spec fn unsubscribed(self, server: Seq<char>, topic: Seq<char>) -> RegistryView {
        RegistryView {
            db: if self.db.has_subscription(server, topic) {
                self.db.without_subscription(server, topic)
            } else {
                self.db.with_server(server)
            },
            live: self.live.remove(live_index(self.live, server, topic)),
            ..self
        }
    }
}

/// The registry.
#[derive(Debug)]
pub struct Registry {
    db: Db,
    keys: Keys,
    credentials: Credentials,
    handles: Vec<Handle>,
}

impl View for Registry {
    type V = RegistryView;

    closed spec fn view(&self) -> RegistryView {
        RegistryView {
            db: self.db@,
            keys: self.keys@,
            logins: self.credentials@,
            live: self.handles.deep_view(),
        }
    }
}

impl Registry {
    /// The invariant of the registry: its parts are well formed, and no
    /// server and topic has two live subscriptions.
    pub closed spec fn wf(&self) -> bool {
        &&& self.db.wf()
        &&& self.keys.wf()
        &&& self.credentials.wf()
        &&& distinct_live(self.handles.deep_view())
    }

    /// A registry over a store and a vault, with no live subscription yet.
    pub fn new(db: Db, keys: Keys, credentials: Credentials) -> (r: Registry)
        requires
            db.wf(),
            keys.wf(),
            credentials.wf(),
        ensures
            r.wf(),
            r@ == (RegistryView { db: db@, keys: keys@, logins: credentials@, live: Seq::empty() }),
    {
        let r = Registry { db, keys, credentials, handles: Vec::new() };
        assert(r.handles.deep_view() =~= Seq::empty());
        r
    }

    /// What the invariant says of the parts that can be seen from outside.
    pub proof fn lemma_wf(&self)
        requires
            self.wf(),
        ensures
            self@.db.wf(),
            distinct_live(self@.live),
    {
    }

    fn find(&self, server: &String, topic: &String) -> (r: Option<usize>)
        requires
            self.wf(),
        ensures
            r is Some <==> is_live(self@.live, server@, topic@),
            r matches Some(i) ==> i < self.handles.len() && i == live_index(
                self@.live,
                server@,
                topic@,
            ) && self@.live[i as int].model.server == server@ && self@.live[i as int].model.topic
                == topic@,
    {
        let mut i: usize = 0;
        while i < self.handles.len()
            invariant
                i <= self.handles.len(),
                self.wf(),
                forall|k: int|
                    0 <= k < i ==> !((#[trigger] self.handles.deep_view()[k]).model.server == server@
                        && self.handles.deep_view()[k].model.topic == topic@),
            decreases self.handles.len() - i,
        {
            let h = &self.handles[i];
            assert(self.handles.deep_view()[i as int] == h.deep_view());
            if *h.actor.server() == *server && *h.actor.topic() == *topic {
                proof {
                    let live = self.handles.deep_view();
                    let k = live_index(live, server@, topic@);
                    assert(live[i as int].model.server == server@);
                    assert(k == i);
                }
                return Some(i);
            }
            i = i + 1;
        }
        None
    }

    /// Subscribes to `topic` on `server`. The two are validated first; a
    /// refusal is `InvalidSubscription` and changes nothing. Then the store
    /// gets a fresh record unless it has one, and a live subscription is
    /// begun from the record unless one is live. The answer is the live
    /// subscription's record.
    pub fn subscribe(&mut self, server: &str, topic: &str) -> (r: Result<Subscription, Error>)
        requires
            old(self).wf(),
        ensures
            final(self).wf(),
            r is Ok <==> SubscriptionView::fresh(server@, topic@).valid(),
            r matches Err(e) ==> refusal_of(e, SubscriptionView::fresh(server@, topic@)) && final(self)@ == old(self)@,
            r matches Ok(sub) ==> final(self)@ == old(self)@.subscribed(server@, topic@) && is_live(
                final(self)@.live,
                server@,
                topic@,
            ) && sub@ == final(self)@.live[live_index(final(self)@.live, server@, topic@)].model,
    {
        let fresh = match Subscription::builder(topic.to_owned()).server(server.to_owned()).build() {
            Ok(sub) => sub,
            Err(e) => { return Err(e); },
        };
        let record = match self.db.get_subscription(server, topic) {
            Some(stored) => stored,
            None => {
                let _ = self.db.insert_subscription(fresh.clone());
                fresh
            },
        };
        let server_name: String = server.to_owned();
        let topic_name: String = topic.to_owned();
        match self.find(&server_name, &topic_name) {
            Some(i) => Ok(self.handles[i].actor.model()),
            None => {
                let answer = record.clone();
                let ghost before = self.handles.deep_view();
                let handle = Handle { actor: SubscriptionActor::new(record), listener: Listener::new() };
                self.handles.push(handle);
                proof {
                    let live = self.handles.deep_view();
                    assert(live =~= before.push(begun(answer@)));
                    assert(live[before.len() as int].model.server == server@);
                    let k = live_index(live, server@, topic@);
                    assert(k == before.len());
                }
                Ok(answer)
            },
        }
    }

    /// Ends the subscription to `topic` on `server`. Without a live one
    /// the answer is `SubscriptionNotFound` and nothing changes. Else the
    /// listener is shut down, the live subscription is ended, and the
    /// record and its messages are removed from the store; the answer is
    /// what is left to do for the listener, or `SubscriptionNotFound` where
    /// the store had no record.
    pub fn unsubscribe(&mut self, server: &str, topic: &str) -> (r: Result<
        Vec<ListenerEffect>,
        Error,
    >)
        requires
            old(self).wf(),
        ensures
            final(self).wf(),
            r matches Err(e) ==> e is SubscriptionNotFound,
            !is_live(old(self)@.live, server@, topic@) ==> r is Err && final(self)@ == old(self)@,
            is_live(old(self)@.live, server@, topic@) ==> {
                &&& final(self)@ == old(self)@.unsubscribed(server@, topic@)
                &&& !is_live(final(self)@.live, server@, topic@)
                &&& r is Ok <==> old(self)@.db.has_subscription(server@, topic@)
                &&& r matches Ok(effects) ==> effects@ == old(self)@.live[live_index(
                    old(self)@.live,
                    server@,
                    topic@,
                )].listener.next(ListenerInput::Command(ListenerCommand::Shutdown), 0).1
            },
    {
        let server_name: String = server.to_owned();
        let topic_name: String = topic.to_owned();
        let i = match self.find(&server_name, &topic_name) {
            Some(i) => i,
            None => {
                return Err(Error::SubscriptionNotFound(String::from_str("unsubscribing")));
            },
        };
        let ghost before = self.handles.deep_view();
        let mut handle = self.handles.remove(i);
        let effects = handle.listener.step_with(ListenerInput::Command(ListenerCommand::Shutdown), 0);
        proof {
            let live = self.handles.deep_view();
            assert(live =~= before.remove(i as int));
            assert forall|a: int, b: int| 0 <= a < b < live.len() implies !(live[a].model.server
                == live[b].model.server && live[a].model.topic == live[b].model.topic) by {
                let x = if a < i { a } else { a + 1 };
                let y = if b < i { b } else { b + 1 };
                assert(live[a] == before[x] && live[b] == before[y]);
            }
            assert forall|a: int| 0 <= a < live.len() implies !((#[trigger] live[a]).model.server
                == server@ && live[a].model.topic == topic@) by {
                let x = if a < i { a } else { a + 1 };
                assert(live[a] == before[x]);
            }
        }
        match self.db.remove_subscription(server, topic) {
            Ok(()) => Ok(effects),
            Err(e) => Err(e),
        }
    }

    /// The stored subscriptions. A live subscription is begun for each that
    /// had none, so that afterwards every stored subscription is live.
    pub fn list_subscriptions(&mut self) -> (r: Vec<Subscription>)
        requires
            old(self).wf(),
        ensures
            final(self).wf(),
            r.deep_view() == old(self)@.db.subscriptions,
            final(self)@ == (RegistryView {
                live: with_handles_for(old(self)@.live, old(self)@.db.subscriptions),
                ..old(self)@
            }),
            forall|k: int|
                0 <= k < r.len() ==> is_live(
                    final(self)@.live,
                    (#[trigger] r@[k])@.server,
                    r@[k]@.topic,
                ),
    {
        let rows = match self.db.list_subscriptions() {
            Ok(rows) => rows,
            Err(_) => Vec::new(),
        };
        let ghost all = rows.deep_view();
        let ghost start = self.handles.deep_view();
        let mut i: usize = 0;
        assert(all.subrange(0, 0) =~= Seq::empty());
        while i < rows.len()
            invariant
                i <= rows.len(),
                self.wf(),
                all == rows.deep_view(),
                self.db@ == old(self).db@,
                self.keys == old(self).keys,
                self.credentials == old(self).credentials,
                self.handles.deep_view() == with_handles_for(start, all.subrange(0, i as int)),
                forall|k: int|
                    0 <= k < i ==> is_live(
                        self.handles.deep_view(),
                        (#[trigger] all[k]).server,
                        all[k].topic,
                    ),
            decreases rows.len() - i,
        {
            assert(all.subrange(0, i + 1).drop_last() =~= all.subrange(0, i as int));
            assert(all.subrange(0, i + 1).last() == rows@[i as int]@);
            let ghost before = self.handles.deep_view();
            if self.find(&rows[i].server, &rows[i].topic).is_none() {
                let handle = Handle {
                    actor: SubscriptionActor::new(rows[i].clone()),
                    listener: Listener::new(),
                };
                self.handles.push(handle);
                proof {
                    let live = self.handles.deep_view();
                    assert(live =~= before.push(begun(all[i as int])));
                    assert(live[before.len() as int].model.server == all[i as int].server);
                }
            }
            proof {
                let live = self.handles.deep_view();
                assert forall|k: int| 0 <= k < i + 1 implies is_live(
                    live,
                    (#[trigger] all[k]).server,
                    all[k].topic,
                ) by {
                    if is_live(before, all[k].server, all[k].topic) {
                        let w = choose|w: int|
                            0 <= w < before.len() && (#[trigger] before[w]).model.server
                                == all[k].server && before[w].model.topic == all[k].topic;
                        assert(live[w] == before[w]);
                    } else {
                        assert(k == i);
                        assert(live[before.len() as int].model.topic == all[k].topic);
                    }
                }
            }
            i = i + 1;
        }
        assert(all.subrange(0, i as int) =~= all);
        assert forall|k: int| 0 <= k < rows.len() implies is_live(
            self.handles.deep_view(),
            (#[trigger] rows@[k])@.server,
            rows@[k]@.topic,
        ) by {
            assert(all[k] == rows@[k]@);
        }
        rows
    }

    /// Hands a command to the live subscription to `topic` on `server`
    /// and gives its reply; without a live one there is no reply and
    /// nothing changes. No other live subscription changes, and neither
    /// does the vault.
    pub fn command(&mut self, server: &str, topic: &str, command: SubscriptionCommand) -> (r: Option<
        CommandReply,
    >)
        requires
            old(self).wf(),
        ensures
            final(self).wf(),
            r is Some <==> is_live(old(self)@.live, server@, topic@),
            r is None ==> final(self)@ == old(self)@,
            r matches Some(reply) ==> {
                let at = live_index(old(self)@.live, server@, topic@);
                &&& final(self)@.keys == old(self)@.keys
                &&& final(self)@.logins == old(self)@.logins
                &&& final(self)@.live == old(self)@.live.update(at, final(self)@.live[at])
                &&& final(self)@.live[at].listener == old(self)@.live[at].listener
                &&& command_done(
                    command,
                    reply,
                    old(self)@.live[at].model,
                    final(self)@.live[at].model,
                    old(self)@.db,
                    final(self)@.db,
                    old(self)@.keys,
                    old(self)@.logins,
                    old(self)@.live[at].listener.connection,
                )
            },
    {
        let server_name: String = server.to_owned();
        let topic_name: String = topic.to_owned();
        let i = match self.find(&server_name, &topic_name) {
            Some(i) => i,
            None => { return None; },
        };
        let ghost before = self.handles.deep_view();
        let mut handle = self.handles.remove(i);
        let state = handle.listener.state();
        let reply = handle.actor.handle_command(
            &mut self.db,
            &self.keys,
            &self.credentials,
            state,
            command,
        );
        let ghost changed = handle.deep_view();
        self.handles.insert(i, handle);
        proof {
            let live = self.handles.deep_view();
            assert(live =~= before.update(i as int, changed));
            lemma_same_key_keeps_distinct(before, i as int, changed);
        }
        Some(reply)
    }

    /// Hands a message that the listener of `topic` on `server` delivered
    /// to the live subscription, at the moment `now`, and says what is to
    /// be delivered; without a live subscription nothing changes. No other
    /// live subscription changes, and neither does the vault.
    pub fn message(&mut self, server: &str, topic: &str, msg: ReceivedMessage, now: LocalTime) -> (r:
        Option<Delivery>)
        requires
            old(self).wf(),
        ensures
            final(self).wf(),
            r is Some <==> is_live(old(self)@.live, server@, topic@),
            r is None ==> final(self)@ == old(self)@,
            r matches Some(delivery) ==> (final(self)@, delivery@) == old(self)@.after_delivery(
                server@,
                topic@,
                msg@,
                now,
            ),
    {
        let server_name: String = server.to_owned();
        let topic_name: String = topic.to_owned();
        let i = match self.find(&server_name, &topic_name) {
            Some(i) => i,
            None => { return None; },
        };
        let ghost before = self.handles.deep_view();
        let mut handle = self.handles.remove(i);
        proof {
            lemma_message_keeps_order(before[i as int].model, self.db@, msg@, now);
        }
        let delivery = handle.actor.handle_msg_event_at(&mut self.db, msg, now);
        let ghost changed = handle.deep_view();
        self.handles.insert(i, handle);
        proof {
            let live = self.handles.deep_view();
            assert(live =~= before.update(i as int, changed));
            lemma_same_key_keeps_distinct(before, i as int, changed);
        }
        Some(delivery)
    }

    /// Hands a message that the listener of `topic` on `server` delivered
    /// to the live subscription, at the moment that the machine's clock
    /// shows in local time.
    pub fn message_now(&mut self, server: &str, topic: &str, msg: ReceivedMessage) -> (r: Option<
        Delivery,
    >)
        requires
            old(self).wf(),
        ensures
            final(self).wf(),
            r is Some <==> is_live(old(self)@.live, server@, topic@),
            r is None ==> final(self)@ == old(self)@,
            r matches Some(delivery) ==> exists|now: LocalTime|
                now.in_range() && (final(self)@, delivery@) == #[trigger] old(self)@.after_delivery(
                    server@,
                    topic@,
                    msg@,
                    now,
                ),
    {
        let now = local_now();
        self.message(server, topic, msg, now)
    }

    /// Hands an input to the listener of `topic` on `server` and says what
    /// the caller is to do, with `jitter` where the listener has to wait;
    /// without a live subscription nothing changes. Nothing but that
    /// listener changes.
    pub fn listener_input_with(
        &mut self,
        server: &str,
        topic: &str,
        input: ListenerInput,
        jitter: u32,
    ) -> (r: Option<Vec<ListenerEffect>>)
        requires
            old(self).wf(),
        ensures
            final(self).wf(),
            r is Some <==> is_live(old(self)@.live, server@, topic@),
            r is None ==> final(self)@ == old(self)@,
            r matches Some(effects) ==> (final(self)@, effects@) == old(self)@.after_input(
                server@,
                topic@,
                input,
                jitter,
            ),
    {
        let server_name: String = server.to_owned();
        let topic_name: String = topic.to_owned();
        let i = match self.find(&server_name, &topic_name) {
            Some(i) => i,
            None => { return None; },
        };
        let ghost before = self.handles.deep_view();
        let mut handle = self.handles.remove(i);
        let effects = handle.listener.step_with(input, jitter);
        let ghost changed = handle.deep_view();
        self.handles.insert(i, handle);
        proof {
            let live = self.handles.deep_view();
            assert(live =~= before.update(i as int, changed));
            lemma_same_key_keeps_distinct(before, i as int, changed);
        }
        Some(effects)
    }

    /// Hands an input to the listener of `topic` on `server`, with a
    /// jitter drawn afresh where the listener has to wait.
    pub fn listener_input(&mut self, server: &str, topic: &str, input: ListenerInput) -> (r: Option<
        Vec<ListenerEffect>,
    >)
        requires
            old(self).wf(),
        ensures
            final(self).wf(),
            r is Some <==> is_live(old(self)@.live, server@, topic@),
            r is None ==> final(self)@ == old(self)@,
            r matches Some(effects) ==> exists|jitter: u32|
                jitter <= MAX_JITTER && (final(self)@, effects@) == #[trigger] old(self)@.after_input(
                    server@,
                    topic@,
                    input,
                    jitter,
                ),
    {
        let jitter = random_up_to(MAX_JITTER);
        self.listener_input_with(server, topic, input, jitter)
    }

    /// The address of the stream of `topic` on `server`, resumed one second
    /// after the latest stored message of the topic, where there is one.
    pub fn stream_url(&self, server: &str, topic: &str) -> (url: String)
        requires
            self.wf(),
        ensures
            exists|last: Option<u64>|
                is_latest_time(self@.db.messages, server@, topic@, last) && url@
                    == #[trigger] subscribe_url_of(server@, topic@, resume_point(last)),
    {
        let last = match self.db.get_last_message_time(server, topic) {
            Ok(last) => last,
            Err(_) => None,
        };
        subscribe_url(server, topic, resume_from(last))
    }

    /// The login on `server`, if the vault has one.
    pub fn login_for(&self, server: &str) -> (r: Option<Credential>)
        requires
            self.wf(),
        ensures
            r is Some <==> self@.logins.contains_key(server@),
            r matches Some(login) ==> login@ == self@.logins[server@],
    {
        self.credentials.get(server)
    }

    /// The accounts of the vault, without their passwords.
    pub fn list_accounts(&self) -> (r: Vec<Account>)
        requires
            self.wf(),
        ensures
            r.len() == self@.logins.dom().len(),
            forall|k: int|
                0 <= k < r.len() ==> self@.logins.contains_key(#[trigger] r@[k].server@)
                    && self@.logins[r@[k].server@].username == r@[k].username@,
            forall|server: Seq<char>|
                self@.logins.contains_key(server) ==> exists|k: int|
                    0 <= k < r.len() && #[trigger] r@[k].server@ == server,
    {
        self.credentials.list_all()
    }

    /// Files a login in the vault's cache, once the secret store has been
    /// asked to keep it; `stored` is what the secret store answered.
    pub fn add_account(
        &mut self,
        server: &str,
        username: &str,
        password: &str,
        stored: Result<(), Error>,
    ) -> (r: Result<(), Error>)
        requires
            old(self).wf(),
        ensures
            final(self).wf(),
            r == stored,
            r is Ok ==> final(self)@ == (RegistryView {
                logins: old(self)@.logins.insert(
                    server@,
                    CredentialView { username: username@, password: password@ },
                ),
                ..old(self)@
            }),
            r is Err ==> final(self)@ == old(self)@,
    {
        self.credentials.insert(server, username, password, stored)
    }

    /// Forgets a login in the vault's cache, once the secret store has
    /// been asked to delete it; `deleted` is what the secret store answered.
    pub fn remove_account(&mut self, server: &str, deleted: Result<(), Error>) -> (r: Result<
        (),
        Error,
    >)
        requires
            old(self).wf(),
        ensures
            final(self).wf(),
            r == deleted,
            r is Ok ==> final(self)@ == (RegistryView {
                logins: old(self)@.logins.remove(server@),
                ..old(self)@
            }),
            r is Err ==> final(self)@ == old(self)@,
    {
        self.credentials.delete(server, deleted)
    }

    /// The topic keys of the vault.
    pub fn list_keys(&self) -> (r: Vec<TopicKey>)
        requires
            self.wf(),
        ensures
            keys_of(r.deep_view()) == self@.keys,
            distinct_keys(r.deep_view(), by_key()),
    {
        self.keys.list()
    }

    /// Files a topic key in the vault's cache, once the secret store has
    /// been asked to keep it; `stored` is what the secret store answered.
    pub fn put_key(&mut self, server: &str, topic: &str, key: &str, stored: Result<(), Error>) -> (r:
        Result<(), Error>)
        requires
            old(self).wf(),
        ensures
            final(self).wf(),
            r == stored,
            r is Ok ==> final(self)@ == (RegistryView {
                keys: old(self)@.keys.insert((server@, topic@), key@),
                ..old(self)@
            }),
            r is Err ==> final(self)@ == old(self)@,
    {
        self.keys.insert(server, topic, key, stored)
    }

    /// Forgets a topic key in the vault's cache, once the secret store has
    /// been asked to delete it; `deleted` is what the secret store answered.
    pub fn remove_key(&mut self, server: &str, topic: &str, deleted: Result<(), Error>) -> (r:
        Result<(), Error>)
        requires
            old(self).wf(),
        ensures
            final(self).wf(),
            r == deleted,
            r is Ok ==> final(self)@ == (RegistryView {
                keys: old(self)@.keys.remove((server@, topic@)),
                ..old(self)@
            }),
            r is Err ==> final(self)@ == old(self)@,
    {
        self.keys.delete(server, topic, deleted)
    }
}

proof fn lemma_same_key_keeps_distinct(live: Seq<LiveView>, at: int, changed: LiveView)
    requires
        distinct_live(live),
        0 <= at < live.len(),
        changed.model.server == live[at].model.server,
        changed.model.topic == live[at].model.topic,
    ensures
        distinct_live(live.update(at, changed)),
{
    let after = live.update(at, changed);
    assert forall|i: int, j: int| 0 <= i < j < after.len() implies !(after[i].model.server
        == after[j].model.server && after[i].model.topic == after[j].model.topic) by {
        assert(after[i].model.server == live[i].model.server);
        assert(after[j].model.server == live[j].model.server);
        assert(after[i].model.topic == live[i].model.topic);
        assert(after[j].model.topic == live[j].model.topic);
    }
}

} // verus!
