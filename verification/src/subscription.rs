//! The decisions of one subscription: what happens to a message that its
//! listener delivers, and what each command does. Sending a notification,
//! forwarding an event and talking to the server are left to the caller,
//! who is told what to send.

use vstd::prelude::*;
use vstd::utf8::encode_utf8;
use crate::credentials::{Credential, CredentialView, Credentials, LoginTable};
use crate::crypto::{
    fresh_nonce, key_of, opened_text, seal_message, sealable_len, sealed_text, NONCE_LEN,
};
use crate::error::{Error, HttpFailure};
use crate::filters::{check_filters, filter_action};
use crate::keys::{KeyTable, Keys};
use crate::message_repo::{
    lemma_new_message_keeps_wf, lemma_new_server_keeps_wf, lemma_read_until_keeps_wf,
    lemma_slot_range, slot_for, Db, DbView,
};
use crate::models::{
    copy_actions, notification_title_of, ConnectionState, FilterAction, ListenerEvent,
    ListenerEventView, Notification, NotificationView, OutgoingMessage, OutgoingMessageView,
    ReceivedMessage, ReceivedMessageView, Subscription, SubscriptionView,
};
use crate::schedule::{local_now, LocalTime};

verus! {

/// What is to be done with a message once the subscription has decided.
#[derive(Debug, PartialEq, Eq)]
pub struct Delivery {
    /// Whether the message went into the store.
    pub stored: bool,
    /// The notification to show, if one is to be shown.
    pub notification: Option<Notification>,
    /// The event to forward to the consumers, if one is to be forwarded.
    pub broadcast: Option<ListenerEvent>,
}

/// The view of a [`Delivery`].
pub struct DeliveryView {
    pub stored: bool,
    pub notification: Option<NotificationView>,
    pub broadcast: Option<ListenerEventView>,
}

impl DeepView for Delivery {
    type V = DeliveryView;

    open spec fn deep_view(&self) -> DeliveryView {
        DeliveryView {
            stored: self.stored,
            notification: self.notification.deep_view(),
            broadcast: self.broadcast.deep_view(),
        }
    }
}

impl View for Delivery {
    type V = DeliveryView;

    open spec fn view(&self) -> DeliveryView {
        self.deep_view()
    }
}

impl DeliveryView {
    /// Nothing stored, nothing shown, nothing forwarded.
    pub open spec fn nothing() -> DeliveryView {
        DeliveryView { stored: false, notification: None, broadcast: None }
    }
}

/// Where a subscription and the store stand after a message, and what is
/// to be delivered.
pub struct Outcome {
    pub model: SubscriptionView,
    pub db: DbView,
    pub delivery: DeliveryView,
}

/// Whether `msg` is silenced under `model` at `now`, given what the filter
/// rules decided: by the subscription's own switch, by a `Mute` or
/// `MarkRead` rule, or by quiet hours.
pub open spec fn silenced(
    model: SubscriptionView,
    action: Option<FilterAction>,
    now: LocalTime,
) -> bool {
    ||| model.muted
    ||| action == Some(FilterAction::Mute)
    ||| action == Some(FilterAction::MarkRead)
    ||| (model.schedule matches Some(s) && s.mutes_at(now))
}

/// Whether a `MarkRead` rule moves the read cursor: the message is later
/// than the cursor, and the store has the subscription to write it to.
pub open spec fn cursor_moves(
    model: SubscriptionView,
    db: DbView,
    action: Option<FilterAction>,
    msg: ReceivedMessageView,
) -> bool {
    &&& action == Some(FilterAction::MarkRead)
    &&& msg.time > model.read_until
    &&& db.has_subscription(model.server, model.topic)
}

/// The notification for `msg` under `model`.
pub open spec fn notification_for(
    model: SubscriptionView,
    msg: ReceivedMessageView,
) -> NotificationView {
    NotificationView {
        title: notification_title_of(msg, model),
        body: msg.body_text(),
        actions: msg.offered_actions(),
    }
}

/// What a message does to a subscription and the store at the moment `now`.
///
/// A message that a `Discard` rule matches changes nothing. So does a
/// message whose id the store already has for the server. Any other message
/// is stored and forwarded; a `MarkRead` rule moves the read cursor up to
/// its time; and it is notified unless it is silenced or not later than the
/// read cursor.
pub open spec fn after_message(
    model: SubscriptionView,
    db: DbView,
    msg: ReceivedMessageView,
    now: LocalTime,
) -> Outcome {
    let action = filter_action(model.rules, msg);
    if action == Some(FilterAction::Discard) {
        Outcome { model, db, delivery: DeliveryView::nothing() }
    } else if db.has_message(model.server, msg.id) {
        Outcome { model, db, delivery: DeliveryView::nothing() }
    } else {
        let stored = db.with_message(model.server, msg);
        let moves = cursor_moves(model, stored, action, msg);
        let new_model = if moves {
            SubscriptionView { read_until: msg.time, ..model }
        } else {
            model
        };
        let new_db = if moves {
            stored.with_read_until(model.server, model.topic, msg.time)
        } else {
            stored
        };
        let notify = !silenced(model, action, now) && msg.time > new_model.read_until;
        Outcome {
            model: new_model,
            db: new_db,
            delivery: DeliveryView {
                stored: true,
                notification: if notify {
                    Some(notification_for(model, msg))
                } else {
                    None
                },
                broadcast: Some(ListenerEventView::Message(msg)),
            },
        }
    }
}

/// The state of one subscription: its record.
#[derive(Debug)]
pub struct SubscriptionActor {
    model: Subscription,
}

impl View for SubscriptionActor {
    type V = SubscriptionView;

    closed spec fn view(&self) -> SubscriptionView {
        self.model@
    }
}

impl SubscriptionActor {
    /// An actor for the subscription `model`.
    pub fn new(model: Subscription) -> (actor: SubscriptionActor)
        ensures
            actor@ == model@,
    {
        SubscriptionActor { model }
    }

    /// The server of the subscription.
    pub fn server(&self) -> (r: &String)
        ensures
            r@ == self@.server,
    {
        &self.model.server
    }

    /// The topic of the subscription.
    pub fn topic(&self) -> (r: &String)
        ensures
            r@ == self@.topic,
    {
        &self.model.topic
    }

    /// A copy of the subscription as it stands.
    pub fn model(&self) -> (r: Subscription)
        ensures
            r@ == self@,
    {
        self.model.clone()
    }

    /// What the filter rules of the subscription decide for `msg`.
    pub fn check_filters(&self, msg: &ReceivedMessage) -> (r: Option<FilterAction>)
        ensures
            r == filter_action(self@.rules, msg@),
    {
        check_filters(&self.model.rules, msg)
    }

    /// Whether quiet hours hold at `now`: the subscription has a schedule,
    /// and the schedule asks for silence then.
    pub fn check_schedule_at(&self, now: LocalTime) -> (r: bool)
        ensures
            r == (self@.schedule matches Some(s) && s.mutes_at(now)),
    {
        match &self.model.schedule {
            Some(s) => s.schedule_mute(now),
            None => false,
        }
    }

    /// Whether quiet hours hold right now, by the machine's local time.
    pub fn check_schedule(&self) -> (r: bool)
        ensures
            exists|now: LocalTime|
                now.in_range() && r == (self@.schedule matches Some(s) && s.mutes_at(now)),
    {
        let now = local_now();
        self.check_schedule_at(now)
    }

    /// Handles a message that the listener delivered, at the moment `now`:
    /// the subscription, the store and the delivery are then as
    /// [`after_message`] says.
    pub fn handle_msg_event_at(&mut self, db: &mut Db, msg: ReceivedMessage, now: LocalTime) -> (d:
        Delivery)
        requires
            old(db).wf(),
        ensures
            final(db).wf(),
            final(self)@ == after_message(old(self)@, old(db)@, msg@, now).model,
            final(db)@ == after_message(old(self)@, old(db)@, msg@, now).db,
            d@ == after_message(old(self)@, old(db)@, msg@, now).delivery,
    {
        let action = self.check_filters(&msg);
        if let Some(FilterAction::Discard) = action {
            return Delivery { stored: false, notification: None, broadcast: None };
        }
        let copy = msg.clone();
        match db.insert_message(self.model.server.as_str(), copy) {
            Err(_) => {
                proof {
                    lemma_message_has_known_server(old(db)@, self@.server, msg@.id);
                }
                return Delivery { stored: false, notification: None, broadcast: None };
            },
            Ok(()) => {},
        }
        let mut muted = self.model.muted;
        match action {
            Some(FilterAction::Mute) => {
                muted = true;
            },
            Some(FilterAction::MarkRead) => {
                muted = true;
                if msg.time > self.model.read_until {
                    let moved = db.update_read_until(
                        self.model.server.as_str(),
                        self.model.topic.as_str(),
                        msg.time,
                    );
                    proof {
                        lemma_new_message_keeps_wf(old(db)@, old(self)@.server, msg@);
                    }
                    if moved.is_ok() {
                        self.model.read_until = msg.time;
                    }
                }
            },
            _ => {},
        }
        if !muted && self.check_schedule_at(now) {
            muted = true;
        }
        let notification = if !muted && msg.time > self.model.read_until {
            let actions = match &msg.actions {
                Some(a) => copy_actions(a),
                None => Vec::new(),
            };
            let body = match &msg.message {
                Some(m) => m.clone(),
                None => String::new(),
            };
            assert(actions.deep_view() =~= msg@.offered_actions());
            Some(Notification { title: msg.notification_title(&self.model), body, actions })
        } else {
            None
        };
        Delivery { stored: true, notification, broadcast: Some(ListenerEvent::Message(msg)) }
    }

    /// Handles a message that the listener delivered, at the moment that
    /// the machine's clock shows in local time.
    pub fn handle_msg_event(&mut self, db: &mut Db, msg: ReceivedMessage) -> (d: Delivery)
        requires
            old(db).wf(),
        ensures
            final(db).wf(),
            exists|now: LocalTime|
                {
                    &&& now.in_range()
                    &&& final(self)@ == (#[trigger] after_message(
                        old(self)@,
                        old(db)@,
                        msg@,
                        now,
                    )).model
                    &&& final(db)@ == after_message(old(self)@, old(db)@, msg@, now).db
                    &&& d@ == after_message(old(self)@, old(db)@, msg@, now).delivery
                },
    {
        let now = local_now();
        self.handle_msg_event_at(db, msg, now)
    }

    /// Takes over the fields of `new_model` that a user may change: all
    /// but the server, the topic and the read cursor, which stay as they
    /// are. The store is written first; where it has no such subscription,
    /// the answer is `SubscriptionNotFound` and the subscription stays as
    /// it was.
    pub fn update_info(&mut self, db: &mut Db, new_model: Subscription) -> (r: Result<(), Error>)
        requires
            old(db).wf(),
        ensures
            final(db).wf(),
            r is Ok <==> old(db)@.has_subscription(old(self)@.server, old(self)@.topic),
            r is Ok ==> final(self)@ == adopted(old(self)@, new_model@) && final(db)@ == old(db)@.with_updated(adopted(old(self)@, new_model@)),
            r matches Err(e) ==> e is SubscriptionNotFound && final(self)@ == old(self)@ && final(db)@ == old(db)@.with_server(old(self)@.server),
            final(self)@.read_until == old(self)@.read_until,
    {
        let mut new_model = new_model;
        new_model.server = self.model.server.clone();
        new_model.topic = self.model.topic.clone();
        new_model.read_until = self.model.read_until;
        match db.update_subscription(new_model.clone()) {
            Ok(()) => {
                self.model = new_model;
                Ok(())
            },
            Err(e) => Err(e),
        }
    }

    /// Moves the read cursor up to `timestamp`. A timestamp that is not
    /// later than the cursor changes nothing; a later one is written to the
    /// store and then adopted. Where the store has no such subscription,
    /// the answer is `SubscriptionNotFound` and the cursor stays.
    pub fn update_read_until(&mut self, db: &mut Db, timestamp: u64) -> (r: Result<(), Error>)
        requires
            old(db).wf(),
        ensures
            final(db).wf(),
            final(self)@.read_until >= old(self)@.read_until,
            timestamp <= old(self)@.read_until ==> r is Ok && final(self)@ == old(self)@ && final(db)@ == old(db)@,
            timestamp > old(self)@.read_until ==> {
                &&& r is Ok <==> old(db)@.has_subscription(old(self)@.server, old(self)@.topic)
                &&& r is Ok ==> final(self)@ == (SubscriptionView {
                    read_until: timestamp,
                    ..old(self)@
                }) && final(db)@ == old(db)@.with_read_until(
                    old(self)@.server,
                    old(self)@.topic,
                    timestamp,
                )
                &&& r matches Err(e) ==> e is SubscriptionNotFound && final(self)@ == old(self)@
                    && final(db)@ == old(db)@.with_server(old(self)@.server)
            },
    {
        if timestamp <= self.model.read_until {
            return Ok(());
        }
        match db.update_read_until(
            self.model.server.as_str(),
            self.model.topic.as_str(),
            timestamp,
        ) {
            Ok(()) => {
                self.model.read_until = timestamp;
                Ok(())
            },
            Err(e) => Err(e),
        }
    }

    /// What a consumer gets who joins: the stored messages of the
    /// subscription, oldest first, each as a `Message` event, and then the
    /// state of the connection, `state`.
    pub fn attach(&self, db: &Db, state: ConnectionState) -> (r: Vec<ListenerEvent>)
        requires
            db.wf(),
        ensures
            r.deep_view() == replay(db@.listed(self@.server, self@.topic, 0), state),
    {
        let messages = match db.list_messages(
            self.model.server.as_str(),
            self.model.topic.as_str(),
            0,
        ) {
            Ok(m) => m,
            Err(_) => Vec::new(),
        };
        let ghost listed = messages.deep_view();
        let mut messages = messages;
        let mut events: Vec<ListenerEvent> = Vec::new();
        let mut rest: Vec<ReceivedMessage> = Vec::new();
        while messages.len() > 0
            invariant
                listed.len() == messages.len() + rest.len(),
                forall|k: int| 0 <= k < messages.len() ==> messages@[k]@ == listed[k],
                forall|k: int|
                    0 <= k < rest.len() ==> rest@[k]@ == listed[listed.len() - 1 - k],
            decreases messages.len(),
        {
            let m = messages.pop().unwrap();
            rest.push(m);
        }
        while rest.len() > 0
            invariant
                rest.len() + events.len() == listed.len(),
                forall|k: int|
                    0 <= k < rest.len() ==> rest@[k]@ == listed[listed.len() - 1 - k],
                forall|k: int|
                    0 <= k < events.len() ==> events@[k]@ == ListenerEventView::Message(listed[k]),
            decreases rest.len(),
        {
            let m = rest.pop().unwrap();
            events.push(ListenerEvent::Message(m));
        }
        events.push(ListenerEvent::ConnectionStateChanged(state));
        assert(events.deep_view() =~= replay(listed, state));
        events
    }

    /// Deletes the stored messages of the subscription. Where there were
    /// none, the answer is `SubscriptionNotFound`.
    pub fn clear_notifications(&self, db: &mut Db) -> (r: Result<(), Error>)
        requires
            old(db).wf(),
        ensures
            final(db).wf(),
            final(db)@ == old(db)@.without_messages(self@.server, self@.topic),
            r is Ok <==> old(db)@.messages_of(self@.server, self@.topic).len() > 0,
            r matches Err(e) ==> e is SubscriptionNotFound,
    {
        db.delete_messages(self.model.server.as_str(), self.model.topic.as_str())
    }

    /// What is to be sent to publish `msg`, with the nonce `nonce` where
    /// the body is to be encrypted.
    ///
    /// With `encrypt`, the body is sealed under the topic's key and
    /// replaced by the payload text; the other fields stay in the clear.
    /// `NoEncryptionKey` answers a topic without a key, `BadKey` a key that
    /// is not base64 of 32 bytes, `EncryptionFailed` a body too long to
    /// seal. The login of the server is attached where the vault has one.
    pub fn prepare_publish_with(
        &self,
        keys: &Keys,
        credentials: &Credentials,
        msg: OutgoingMessage,
        encrypt: bool,
        nonce: &Vec<u8>,
    ) -> (r: Result<PublishRequest, Error>)
        requires
            keys.wf(),
            credentials.wf(),
            nonce@.len() == NONCE_LEN,
        ensures
            publish_refusal(self@, keys@, msg@, encrypt) matches Some(e) ==> r == Err::<
                PublishRequest,
                Error,
            >(e),
            publish_refusal(self@, keys@, msg@, encrypt) is None ==> (r matches Ok(request)
                && request@ == publish_request(self@, keys@, credentials@, msg@, encrypt, nonce@)),
            r matches Ok(request) ==> (encrypt ==> (request@.message.message matches Some(text)
                && opened_text(keys@[(self@.server, self@.topic)], text) == Some(
                plaintext_of(msg@),
            ))),
    {
        let mut msg = msg;
        if encrypt {
            let key_text = match keys.get(self.model.server.as_str(), self.model.topic.as_str()) {
                Some(k) => k,
                None => { return Err(Error::NoEncryptionKey); },
            };
            let plaintext: Vec<u8> = match &msg.message {
                Some(m) => m.as_str().as_bytes_vec(),
                None => Vec::new(),
            };
            assert(plaintext@ =~= plaintext_of(msg@));
            match seal_message(key_text.as_str(), nonce, &plaintext) {
                Ok(text) => {
                    msg.message = Some(text);
                },
                Err(e) => { return Err(e); },
            }
        }
        Ok(
            PublishRequest {
                server: self.model.server.clone(),
                topic: self.model.topic.clone(),
                message: msg,
                basic_auth: credentials.get(self.model.server.as_str()),
                timeout_secs: PUBLISH_TIMEOUT_SECS,
            },
        )
    }

    /// What is to be sent to publish `msg`; where the body is to be
    /// encrypted, under a nonce drawn afresh.
    pub fn prepare_publish(
        &self,
        keys: &Keys,
        credentials: &Credentials,
        msg: OutgoingMessage,
        encrypt: bool,
    ) -> (r: Result<PublishRequest, Error>)
        requires
            keys.wf(),
            credentials.wf(),
        ensures
            publish_refusal(self@, keys@, msg@, encrypt) matches Some(e) ==> r == Err::<
                PublishRequest,
                Error,
            >(e),
            publish_refusal(self@, keys@, msg@, encrypt) is None ==> (r matches Ok(request)
                && exists|nonce: Seq<u8>|
                nonce.len() == NONCE_LEN && request@ == #[trigger] publish_request(
                    self@,
                    keys@,
                    credentials@,
                    msg@,
                    encrypt,
                    nonce,
                )),
            r matches Ok(request) ==> (encrypt ==> (request@.message.message matches Some(text)
                && opened_text(keys@[(self@.server, self@.topic)], text) == Some(
                plaintext_of(msg@),
            ))),
    {
        let nonce = fresh_nonce();
        self.prepare_publish_with(keys, credentials, msg, encrypt, &nonce)
    }

    /// Handles an event of the listener at the moment `now`. A message is
    /// handled as [`SubscriptionActor::handle_msg_event_at`] says; any other
    /// event is forwarded as it is and changes nothing.
    pub fn handle_listener_event_at(&mut self, db: &mut Db, event: ListenerEvent, now: LocalTime) -> (d:
        Delivery)
        requires
            old(db).wf(),
        ensures
            final(db).wf(),
            event matches ListenerEvent::Message(msg) ==> {
                &&& final(self)@ == after_message(old(self)@, old(db)@, msg@, now).model
                &&& final(db)@ == after_message(old(self)@, old(db)@, msg@, now).db
                &&& d@ == after_message(old(self)@, old(db)@, msg@, now).delivery
            },
            !(event is Message) ==> {
                &&& final(self)@ == old(self)@
                &&& final(db)@ == old(db)@
                &&& d@ == (DeliveryView {
                    stored: false,
                    notification: None,
                    broadcast: Some(event@),
                })
            },
    {
        match event {
            ListenerEvent::Message(msg) => self.handle_msg_event_at(db, msg, now),
            other => Delivery { stored: false, notification: None, broadcast: Some(other) },
        }
    }

    /// Carries out one command and gives the reply that its sender waits
    /// for. `state` is the state of the connection, which `Attach` reports.
    /// The server and the topic never change, and the read cursor never
    /// moves back.
    pub fn handle_command(
        &mut self,
        db: &mut Db,
        keys: &Keys,
        credentials: &Credentials,
        state: ConnectionState,
        command: SubscriptionCommand,
    ) -> (reply: CommandReply)
        requires
            old(db).wf(),
            keys.wf(),
            credentials.wf(),
        ensures
            final(db).wf(),
            final(self)@.server == old(self)@.server,
            final(self)@.topic == old(self)@.topic,
            final(self)@.read_until >= old(self)@.read_until,
            command_done(
                command,
                reply,
                old(self)@,
                final(self)@,
                old(db)@,
                final(db)@,
                keys@,
                credentials@,
                state,
            ),
    {
        match command {
            SubscriptionCommand::GetModel => CommandReply::Model(self.model()),
            SubscriptionCommand::UpdateInfo { new_model } => CommandReply::Updated(
                self.update_info(db, new_model),
            ),
            SubscriptionCommand::Attach => CommandReply::Attached(self.attach(db, state)),
            SubscriptionCommand::Publish { msg, encrypt } => CommandReply::Publish(
                self.prepare_publish(keys, credentials, msg, encrypt),
            ),
            SubscriptionCommand::ClearNotifications => CommandReply::Cleared(
                self.clear_notifications(db),
            ),
            SubscriptionCommand::UpdateReadUntil { timestamp } => CommandReply::ReadUntilUpdated(
                self.update_read_until(db, timestamp),
            ),
        }
    }
}

/// How long a publish request may take, in seconds.
pub const PUBLISH_TIMEOUT_SECS: u64 = 30;

/// What is to be sent to a server to publish a message.
#[derive(Debug, PartialEq, Eq)]
pub struct PublishRequest {
    /// The URL to post to: the server.
    pub server: String,
    /// The topic, which goes into the body beside the message's fields.
    pub topic: String,
    pub message: OutgoingMessage,
    /// The login for HTTP basic authentication, if the vault has one.
    pub basic_auth: Option<Credential>,
    /// How long the request may take in all, in seconds.
    pub timeout_secs: u64,
}

/// The view of a [`PublishRequest`].
pub struct PublishRequestView {
    pub server: Seq<char>,
    pub topic: Seq<char>,
    pub message: OutgoingMessageView,
    pub basic_auth: Option<CredentialView>,
    pub timeout_secs: u64,
}

impl DeepView for PublishRequest {
    type V = PublishRequestView;

    open spec fn deep_view(&self) -> PublishRequestView {
        PublishRequestView {
            server: self.server@,
            topic: self.topic@,
            message: self.message@,
            basic_auth: self.basic_auth.deep_view(),
            timeout_secs: self.timeout_secs,
        }
    }
}

impl View for PublishRequest {
    type V = PublishRequestView;

    open spec fn view(&self) -> PublishRequestView {
        self.deep_view()
    }
}

/// The bytes that are sealed when `msg` is encrypted: its body as UTF-8,
/// or nothing where it has no body.
pub open spec fn plaintext_of(msg: OutgoingMessageView) -> Seq<u8> {
    match msg.message {
        Some(m) => encode_utf8(m),
        None => Seq::empty(),
    }
}

/// Why `msg` cannot be published, if it cannot. Without encryption there
/// is no reason. With it: `NoEncryptionKey` where the topic has no key,
/// else `BadKey` where the key is not base64 of 32 bytes, else
/// `EncryptionFailed` where the body is too long to seal.
pub open spec fn publish_refusal(
    model: SubscriptionView,
    keys: KeyTable,
    msg: OutgoingMessageView,
    encrypt: bool,
) -> Option<Error> {
    if !encrypt {
        None
    } else if !keys.contains_key((model.server, model.topic)) {
        Some(Error::NoEncryptionKey)
    } else if key_of(keys[(model.server, model.topic)]) is None {
        Some(Error::BadKey)
    } else if !sealable_len(plaintext_of(msg).len()) {
        Some(Error::EncryptionFailed)
    } else {
        None
    }
}

/// The request that publishes `msg`, where nothing stands against it.
pub open spec fn publish_request(
    model: SubscriptionView,
    keys: KeyTable,
    logins: LoginTable,
    msg: OutgoingMessageView,
    encrypt: bool,
    nonce: Seq<u8>,
) -> PublishRequestView {
    PublishRequestView {
        server: model.server,
        topic: model.topic,
        message: if encrypt {
            OutgoingMessageView {
                message: Some(
                    sealed_text(
                        key_of(keys[(model.server, model.topic)])->0,
                        nonce,
                        plaintext_of(msg),
                    ),
                ),
                ..msg
            }
        } else {
            msg
        },
        basic_auth: if logins.contains_key(model.server) {
            Some(logins[model.server])
        } else {
            None
        },
        timeout_secs: PUBLISH_TIMEOUT_SECS,
    }
}

/// What the server's answer to a publish request means: a status from 200
/// to 299 is success, any other is the error `Http` with that status.
pub fn publish_outcome(status: u16) -> (r: Result<(), Error>)
    ensures
        r is Ok <==> 200 <= status <= 299,
        r is Err ==> r == Err::<(), Error>(Error::Http(HttpFailure::Status(status))),
{
    if status >= 200 && status <= 299 {
        Ok(())
    } else {
        Err(Error::Http(HttpFailure::Status(status)))
    }
}

/// The subscription that `update_info` adopts: `new_model`, but with the
/// server, the topic and the read cursor of `current`.
pub open spec fn adopted(current: SubscriptionView, new_model: SubscriptionView) -> SubscriptionView {
    SubscriptionView {
        server: current.server,
        topic: current.topic,
        read_until: current.read_until,
        ..new_model
    }
}

/// The events that a joining consumer gets: one `Message` for each listed
/// message, in order, and the state of the connection at the end.
pub open spec fn replay(listed: Seq<ReceivedMessageView>, state: ConnectionState) -> Seq<
    ListenerEventView,
> {
    listed.map_values(|m: ReceivedMessageView| ListenerEventView::Message(m)).push(
        ListenerEventView::ConnectionStateChanged(state),
    )
}

/// A command to a subscription.
#[derive(Debug)]
pub enum SubscriptionCommand {
    /// Asks for a copy of the subscription.
    GetModel,
    /// Asks to take over the fields of `new_model` that a user may change.
    UpdateInfo { new_model: Subscription },
    /// Asks for the stored messages and the state of the connection.
    Attach,
    /// Asks to publish `msg`, with its body encrypted where `encrypt` is set.
    Publish { msg: OutgoingMessage, encrypt: bool },
    /// Asks to delete the stored messages.
    ClearNotifications,
    /// Asks to move the read cursor up to `timestamp`.
    UpdateReadUntil { timestamp: u64 },
}

/// The reply to a command; each command has its own.
#[derive(Debug)]
pub enum CommandReply {
    Model(Subscription),
    Updated(Result<(), Error>),
    Attached(Vec<ListenerEvent>),
    /// The request to send; the sender is told the server's answer later.
    Publish(Result<PublishRequest, Error>),
    Cleared(Result<(), Error>),
    ReadUntilUpdated(Result<(), Error>),
}

/// Whether `reply`, and the step from `before` and `db_before` to `after`
/// and `db_after`, is what `command` asks for.
pub open spec fn command_done(
    command: SubscriptionCommand,
    reply: CommandReply,
    before: SubscriptionView,
    after: SubscriptionView,
    db_before: DbView,
    db_after: DbView,
    keys: KeyTable,
    logins: LoginTable,
    state: ConnectionState,
) -> bool {
    match command {
        SubscriptionCommand::GetModel => {
            &&& reply matches CommandReply::Model(m)
            &&& m@ == before
            &&& after == before
            &&& db_after == db_before
        },
        SubscriptionCommand::UpdateInfo { new_model } => {
            &&& reply matches CommandReply::Updated(r)
            &&& r is Ok <==> db_before.has_subscription(before.server, before.topic)
            &&& r is Ok ==> after == adopted(before, new_model@) && db_after
                == db_before.with_updated(adopted(before, new_model@))
            &&& r matches Err(e) ==> e is SubscriptionNotFound && after == before && db_after
                == db_before.with_server(before.server)
        },
        SubscriptionCommand::Attach => {
            &&& reply matches CommandReply::Attached(events)
            &&& events.deep_view() == replay(db_before.listed(before.server, before.topic, 0), state)
            &&& after == before
            &&& db_after == db_before
        },
        SubscriptionCommand::Publish { msg, encrypt } => {
            &&& reply matches CommandReply::Publish(r)
            &&& after == before
            &&& db_after == db_before
            &&& publish_refusal(before, keys, msg@, encrypt) matches Some(e) ==> r == Err::<
                PublishRequest,
                Error,
            >(e)
            &&& publish_refusal(before, keys, msg@, encrypt) is None ==> (r matches Ok(request)
                && exists|nonce: Seq<u8>|
                nonce.len() == NONCE_LEN && request@ == #[trigger] publish_request(
                    before,
                    keys,
                    logins,
                    msg@,
                    encrypt,
                    nonce,
                ))
        },
        SubscriptionCommand::ClearNotifications => {
            &&& reply matches CommandReply::Cleared(r)
            &&& after == before
            &&& db_after == db_before.without_messages(before.server, before.topic)
            &&& r is Ok <==> db_before.messages_of(before.server, before.topic).len() > 0
            &&& r matches Err(e) ==> e is SubscriptionNotFound
        },
        SubscriptionCommand::UpdateReadUntil { timestamp } => {
            &&& reply matches CommandReply::ReadUntilUpdated(r)
            &&& timestamp <= before.read_until ==> r is Ok && after == before && db_after
                == db_before
            &&& timestamp > before.read_until ==> {
                &&& r is Ok <==> db_before.has_subscription(before.server, before.topic)
                &&& r is Ok ==> after == (SubscriptionView { read_until: timestamp, ..before })
                    && db_after == db_before.with_read_until(
                    before.server,
                    before.topic,
                    timestamp,
                )
                &&& r matches Err(e) ==> e is SubscriptionNotFound && after == before && db_after
                    == db_before.with_server(before.server)
            }
        },
    }
}

/// Where a subscription and the store stand after a run of messages, each
/// handled at its own moment, one after the other.
pub open spec fn after_messages(
    model: SubscriptionView,
    db: DbView,
    events: Seq<(ReceivedMessageView, LocalTime)>,
) -> Outcome
    decreases events.len(),
{
    if events.len() == 0 {
        Outcome { model, db, delivery: DeliveryView::nothing() }
    } else {
        let first = after_message(model, db, events[0].0, events[0].1);
        after_messages(first.model, first.db, events.drop_first())
    }
}

/// A message keeps the store well formed, leaves the server, the topic and
/// the rules of the subscription alone, and never moves the read cursor
/// back.
pub proof fn lemma_message_keeps_order(
    model: SubscriptionView,
    db: DbView,
    msg: ReceivedMessageView,
    now: LocalTime,
)
    requires
        db.wf(),
    ensures
        after_message(model, db, msg, now).db.wf(),
        after_message(model, db, msg, now).model.read_until >= model.read_until,
        after_message(model, db, msg, now).model == (SubscriptionView {
            read_until: after_message(model, db, msg, now).model.read_until,
            ..model
        }),
{
    let action = filter_action(model.rules, msg);
    lemma_new_server_keeps_wf(db, model.server);
    if action != Some(FilterAction::Discard) && !db.has_message(model.server, msg.id) {
        lemma_new_message_keeps_wf(db, model.server, msg);
        let stored = db.with_message(model.server, msg);
        if cursor_moves(model, stored, action, msg) {
            lemma_read_until_keeps_wf(stored, model.server, model.topic, msg.time);
        }
    }
}

/// A message that a `Discard` rule matches leaves no trace: the
/// subscription and the store stay as they were, so the store has no row
/// for the message unless it had one before, and nothing is stored,
/// notified or forwarded.
pub proof fn lemma_discard_leaves_no_trace(
    model: SubscriptionView,
    db: DbView,
    msg: ReceivedMessageView,
    now: LocalTime,
)
    requires
        filter_action(model.rules, msg) == Some(FilterAction::Discard),
    ensures
        after_message(model, db, msg, now).model == model,
        after_message(model, db, msg, now).db == db,
        after_message(model, db, msg, now).delivery == DeliveryView::nothing(),
        !db.has_message(model.server, msg.id) ==> !after_message(
            model,
            db,
            msg,
            now,
        ).db.has_message(model.server, msg.id),
{
}

/// A message whose id the store already has for the server changes
/// nothing: no row is added, and nothing is notified or forwarded.
pub proof fn lemma_duplicate_changes_nothing(
    model: SubscriptionView,
    db: DbView,
    msg: ReceivedMessageView,
    now: LocalTime,
)
    requires
        db.has_message(model.server, msg.id),
    ensures
        after_message(model, db, msg, now).model == model,
        after_message(model, db, msg, now).db == db,
        after_message(model, db, msg, now).delivery == DeliveryView::nothing(),
{
}

proof fn lemma_message_has_known_server(db: DbView, server: Seq<char>, id: Seq<char>)
    requires
        db.wf(),
        db.has_message(server, id),
    ensures
        db.with_server(server) == db,
{
    let k = choose|k: int|
        0 <= k < db.messages.len() && #[trigger] db.messages[k].server == server
            && db.messages[k].message.id == id;
    assert(db.servers.contains(db.messages[k].server));
}

/// During quiet hours a message that no rule matches is stored and
/// forwarded, but not notified.
pub proof fn lemma_quiet_hours_silence(
    model: SubscriptionView,
    db: DbView,
    msg: ReceivedMessageView,
    now: LocalTime,
)
    requires
        db.wf(),
        model.schedule matches Some(s) && s.mutes_at(now),
        filter_action(model.rules, msg) is None,
        !db.has_message(model.server, msg.id),
    ensures
        after_message(model, db, msg, now).delivery.notification is None,
        after_message(model, db, msg, now).delivery.stored,
        after_message(model, db, msg, now).delivery.broadcast == Some(
            ListenerEventView::Message(msg),
        ),
        after_message(model, db, msg, now).db == db.with_message(model.server, msg),
        after_message(model, db, msg, now).db.has_message(model.server, msg.id),
{
    let known = db.with_server(model.server);
    let at = slot_for(known.messages, msg.time);
    lemma_slot_range(known.messages, msg.time);
    let v = db.with_message(model.server, msg);
    assert(v.messages[at].server == model.server && v.messages[at].message.id == msg.id);
}

/// A message that is new to the store and that no rule discards adds
/// exactly one row to the store, and the store then has its id and,
/// besides, the ids that it had.
pub proof fn lemma_new_message_adds_one_row(
    model: SubscriptionView,
    db: DbView,
    msg: ReceivedMessageView,
    now: LocalTime,
)
    requires
        db.wf(),
        filter_action(model.rules, msg) != Some(FilterAction::Discard),
        !db.has_message(model.server, msg.id),
    ensures
        after_message(model, db, msg, now).db.messages.len() == db.messages.len() + 1,
        after_message(model, db, msg, now).delivery.stored,
        forall|id: Seq<char>|
            after_message(model, db, msg, now).db.has_message(model.server, id) <==> (id == msg.id
                || db.has_message(model.server, id)),
{
    lemma_new_message_keeps_wf(db, model.server, msg);
    let known = db.with_server(model.server);
    let at = slot_for(known.messages, msg.time);
    lemma_slot_range(known.messages, msg.time);
    let stored = db.with_message(model.server, msg);
    let out = after_message(model, db, msg, now).db;
    assert(out.messages == stored.messages);
    assert forall|id: Seq<char>|
        out.has_message(model.server, id) <==> (id == msg.id || db.has_message(
            model.server,
            id,
        )) by {
        if out.has_message(model.server, id) {
            let k = choose|k: int|
                0 <= k < out.messages.len() && #[trigger] out.messages[k].server == model.server
                    && out.messages[k].message.id == id;
            if k < at {
                assert(db.messages[k] == out.messages[k]);
            } else if k > at {
                assert(db.messages[k - 1] == out.messages[k]);
            }
        }
        if id == msg.id {
            assert(out.messages[at].server == model.server && out.messages[at].message.id == id);
        }
        if db.has_message(model.server, id) {
            let k = choose|k: int|
                0 <= k < db.messages.len() && #[trigger] db.messages[k].server == model.server
                    && db.messages[k].message.id == id;
            let j = if k < at { k } else { k + 1 };
            assert(out.messages[j] == db.messages[k]);
        }
    }
}

/// Of a run of messages whose ids differ from each other and from those
/// that the store has for the server, every one that no rule discards is
/// stored: where none is discarded, the store grows by as many rows as
/// there are messages.
pub proof fn lemma_distinct_messages_all_stored(
    model: SubscriptionView,
    db: DbView,
    events: Seq<(ReceivedMessageView, LocalTime)>,
)
    requires
        db.wf(),
        forall|i: int, j: int| 0 <= i < j < events.len() ==> events[i].0.id != events[j].0.id,
        forall|i: int| 0 <= i < events.len() ==> !db.has_message(model.server, events[i].0.id),
        forall|i: int|
            0 <= i < events.len() ==> filter_action(model.rules, events[i].0) != Some(
                FilterAction::Discard,
            ),
    ensures
        after_messages(model, db, events).db.wf(),
        after_messages(model, db, events).db.messages.len() == db.messages.len() + events.len(),
        after_messages(model, db, events).model.read_until >= model.read_until,
    decreases events.len(),
{
    if events.len() > 0 {
        let msg = events[0].0;
        let now = events[0].1;
        let first = after_message(model, db, msg, now);
        let rest = events.drop_first();
        lemma_message_keeps_order(model, db, msg, now);
        lemma_new_message_adds_one_row(model, db, msg, now);
        assert forall|i: int| 0 <= i < rest.len() implies !first.db.has_message(
            first.model.server,
            rest[i].0.id,
        ) && filter_action(first.model.rules, rest[i].0) != Some(FilterAction::Discard) by {
            assert(rest[i] == events[i + 1]);
        }
        assert forall|i: int, j: int| 0 <= i < j < rest.len() implies rest[i].0.id
            != rest[j].0.id by {
            assert(rest[i] == events[i + 1] && rest[j] == events[j + 1]);
        }
        lemma_distinct_messages_all_stored(first.model, first.db, rest);
    }
}

} // verus!
