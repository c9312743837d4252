use base64::engine::general_purpose::STANDARD;
use base64::Engine;
use ntfy_daemon::credentials::{Credential, Credentials};
use ntfy_daemon::crypto::open_message;
use ntfy_daemon::error::{Error, HttpFailure};
use ntfy_daemon::keys::Keys;
use ntfy_daemon::message_repo::Db;
use ntfy_daemon::models::{
    Action, ConnectionState, FilterAction, FilterRule, ListenerEvent, Notification,
    OutgoingMessage, ReceivedMessage, Schedule, Subscription,
};
use ntfy_daemon::schedule::LocalTime;
use ntfy_daemon::subscription::{
    publish_outcome, CommandReply, Delivery, SubscriptionActor, SubscriptionCommand,
};

const SERVER: &str = "https://ntfy.sh";

const NOON_WEDNESDAY: LocalTime = LocalTime { weekday: 3, hour: 12, minute: 0 };

fn message(id: &str, time: u64, body: &str) -> ReceivedMessage {
    ReceivedMessage {
        id: id.to_string(),
        time,
        event: "message".to_string(),
        topic: "alerts".to_string(),
        message: Some(body.to_string()),
        title: None,
        tags: None,
        priority: None,
        actions: None,
    }
}

fn subscription() -> Subscription {
    Subscription::builder("alerts".to_string()).build().unwrap()
}

fn rule(regex: &str, action: FilterAction) -> FilterRule {
    FilterRule { name: "rule".to_string(), regex: regex.to_string(), action }
}

fn setup(model: Subscription) -> (SubscriptionActor, Db) {
    let mut db = Db::new();
    db.insert_subscription(model.clone()).unwrap();
    (SubscriptionActor::new(model), db)
}

fn nothing() -> Delivery {
    Delivery { stored: false, notification: None, broadcast: None }
}

fn outgoing(body: Option<&str>) -> OutgoingMessage {
    OutgoingMessage {
        message: body.map(|s| s.to_string()),
        title: Some("T".to_string()),
        tags: Some(vec!["tag".to_string()]),
        priority: Some(4),
        actions: None,
    }
}

#[test]
fn store_notify_mark_read() {
    let (mut actor, mut db) = setup(subscription());
    let first = actor.handle_msg_event_at(&mut db, message("m1", 100, "hi"), NOON_WEDNESDAY);
    assert!(first.stored);
    assert_eq!(
        first.notification,
        Some(Notification { title: "alerts".to_string(), body: "hi".to_string(), actions: vec![] })
    );
    assert_eq!(first.broadcast, Some(ListenerEvent::Message(message("m1", 100, "hi"))));
    assert_eq!(db.list_messages(SERVER, "alerts", 0).unwrap().len(), 1);

    actor.update_read_until(&mut db, 200).unwrap();
    assert_eq!(actor.model().read_until, 200);
    let replay = actor.handle_msg_event_at(&mut db, message("m1", 100, "hi"), NOON_WEDNESDAY);
    assert_eq!(replay, nothing());
    assert_eq!(db.list_messages(SERVER, "alerts", 0).unwrap().len(), 1);
}

#[test]
fn discard_filter() {
    let mut model = subscription();
    model.rules = Some(vec![rule("secret", FilterAction::Discard)]);
    let (mut actor, mut db) = setup(model.clone());
    let d = actor.handle_msg_event_at(&mut db, message("m1", 100, "this is a secret"), NOON_WEDNESDAY);
    assert_eq!(d, nothing());
    assert!(db.list_messages(SERVER, "alerts", 0).unwrap().is_empty());
    assert_eq!(db.get_last_message_time(SERVER, "alerts").unwrap(), None);
    assert_eq!(actor.model(), model);
    // The id was not taken: the message can still come in once the rule is gone.
    let mut open = model.clone();
    open.rules = None;
    actor.update_info(&mut db, open).unwrap();
    let d = actor.handle_msg_event_at(&mut db, message("m1", 100, "this is a secret"), NOON_WEDNESDAY);
    assert!(d.stored);
}

#[test]
fn mark_read_filter() {
    let mut model = subscription();
    model.rules = Some(vec![rule("^ack", FilterAction::MarkRead)]);
    let (mut actor, mut db) = setup(model);
    let mut msg = message("m2", 500, "ok");
    msg.title = Some("ack".to_string());
    let d = actor.handle_msg_event_at(&mut db, msg.clone(), NOON_WEDNESDAY);
    assert!(d.stored);
    assert_eq!(d.notification, None);
    assert_eq!(d.broadcast, Some(ListenerEvent::Message(msg)));
    assert_eq!(actor.model().read_until, 500);
    assert_eq!(db.list_subscriptions().unwrap()[0].read_until, 500);
    assert_eq!(db.list_messages(SERVER, "alerts", 0).unwrap().len(), 1);
}

#[test]
fn mark_read_never_moves_the_cursor_back() {
    let mut model = subscription();
    model.rules = Some(vec![rule("ack", FilterAction::MarkRead)]);
    model.read_until = 900;
    let (mut actor, mut db) = setup(model);
    let d = actor.handle_msg_event_at(&mut db, message("m2", 500, "ack"), NOON_WEDNESDAY);
    assert!(d.stored);
    assert_eq!(d.notification, None);
    assert_eq!(actor.model().read_until, 900);
    assert_eq!(db.list_subscriptions().unwrap()[0].read_until, 900);
}

#[test]
fn mark_read_without_a_stored_subscription_keeps_the_cursor() {
    let mut model = subscription();
    model.rules = Some(vec![rule("ack", FilterAction::MarkRead)]);
    let mut actor = SubscriptionActor::new(model);
    let mut db = Db::new();
    let d = actor.handle_msg_event_at(&mut db, message("m2", 500, "ack"), NOON_WEDNESDAY);
    assert!(d.stored);
    assert_eq!(d.notification, None);
    assert_eq!(actor.model().read_until, 0);
}

#[test]
fn mute_filter() {
    let mut model = subscription();
    model.rules = Some(vec![rule("quiet", FilterAction::Mute)]);
    let (mut actor, mut db) = setup(model);
    let d = actor.handle_msg_event_at(&mut db, message("m1", 100, "be quiet"), NOON_WEDNESDAY);
    assert!(d.stored);
    assert_eq!(d.notification, None);
    assert!(d.broadcast.is_some());
    assert_eq!(actor.model().read_until, 0);
    let loud = actor.handle_msg_event_at(&mut db, message("m2", 101, "loud"), NOON_WEDNESDAY);
    assert!(loud.notification.is_some());
}

#[test]
fn schedule_over_midnight() {
    let mut model = subscription();
    model.schedule = Some(Schedule {
        start_time: "22:00".to_string(),
        end_time: "07:00".to_string(),
        days: vec![1, 2, 3, 4, 5],
    });
    let (mut actor, mut db) = setup(model);
    let tuesday_night = LocalTime { weekday: 2, hour: 23, minute: 30 };
    let d = actor.handle_msg_event_at(&mut db, message("m3", 1712000000, "x"), tuesday_night);
    assert!(d.stored);
    assert_eq!(d.notification, None);
    assert_eq!(d.broadcast, Some(ListenerEvent::Message(message("m3", 1712000000, "x"))));
    assert_eq!(db.list_messages(SERVER, "alerts", 0).unwrap().len(), 1);
    assert!(actor.check_schedule_at(tuesday_night));
    assert!(!actor.check_schedule_at(NOON_WEDNESDAY));
    let d = actor.handle_msg_event_at(&mut db, message("m4", 1712000001, "y"), NOON_WEDNESDAY);
    assert!(d.notification.is_some());
}

#[test]
fn muted_subscription_stores_and_forwards() {
    let mut model = subscription();
    model.muted = true;
    let (mut actor, mut db) = setup(model);
    let d = actor.handle_msg_event_at(&mut db, message("m1", 100, "hi"), NOON_WEDNESDAY);
    assert!(d.stored);
    assert_eq!(d.notification, None);
    assert!(d.broadcast.is_some());
}

#[test]
fn read_messages_are_not_notified() {
    let mut model = subscription();
    model.read_until = 100;
    let (mut actor, mut db) = setup(model);
    let old = actor.handle_msg_event_at(&mut db, message("m1", 100, "old"), NOON_WEDNESDAY);
    assert!(old.stored);
    assert_eq!(old.notification, None);
    let new = actor.handle_msg_event_at(&mut db, message("m2", 101, "new"), NOON_WEDNESDAY);
    assert!(new.notification.is_some());
}

#[test]
fn distinct_ids_are_all_stored_and_duplicates_are_not() {
    let (mut actor, mut db) = setup(subscription());
    let mut notified = 0;
    for i in 0..20u64 {
        let d = actor.handle_msg_event_at(&mut db, message(&format!("m{}", i), 100 + i, "x"), NOON_WEDNESDAY);
        assert!(d.stored);
        if d.notification.is_some() {
            notified += 1;
        }
    }
    assert_eq!(notified, 20);
    assert_eq!(db.list_messages(SERVER, "alerts", 0).unwrap().len(), 20);
    for i in 0..20u64 {
        let d = actor.handle_msg_event_at(&mut db, message(&format!("m{}", i), 500 + i, "x"), NOON_WEDNESDAY);
        assert_eq!(d, nothing());
    }
    assert_eq!(db.list_messages(SERVER, "alerts", 0).unwrap().len(), 20);
}

#[test]
fn notification_title_and_actions() {
    let mut model = subscription();
    model.display_name = Some("My alerts".to_string());
    let (mut actor, mut db) = setup(model.clone());
    let plain = actor.handle_msg_event_at(&mut db, message("m1", 1, "a"), NOON_WEDNESDAY);
    assert_eq!(plain.notification.unwrap().title, "My alerts");
    let mut titled = message("m2", 2, "b");
    titled.title = Some("Own title".to_string());
    let view = Action::View { url: "https://x.example".to_string(), label: "Open".to_string() };
    let http = Action::Http {
        method: "POST".to_string(),
        url: "https://x.example/do".to_string(),
        body: "{}".to_string(),
        headers: vec![("X-A".to_string(), "1".to_string())],
        label: "Do".to_string(),
    };
    titled.actions = Some(vec![view.clone(), http.clone(), Action::Other]);
    assert_eq!(titled.notification_title(&model), "Own title");
    assert_eq!(titled.display_title(), Some("Own title".to_string()));
    assert_eq!(titled.display_message(), Some("b".to_string()));
    let d = actor.handle_msg_event_at(&mut db, titled, NOON_WEDNESDAY);
    let n = d.notification.unwrap();
    assert_eq!(n.title, "Own title");
    assert_eq!(n.body, "b");
    assert_eq!(n.actions, vec![view, http, Action::Other]);
    let mut bare = message("m3", 3, "");
    bare.message = None;
    let d = actor.handle_msg_event_at(&mut db, bare, NOON_WEDNESDAY);
    assert_eq!(d.notification.unwrap().body, "");
}

#[test]
fn handling_by_the_clock_stores_the_message() {
    let (mut actor, mut db) = setup(subscription());
    let d = actor.handle_msg_event(&mut db, message("m1", 100, "hi"));
    assert!(d.stored);
    assert!(d.notification.is_some());
    assert!(!actor.check_schedule());
    let again = actor.handle_msg_event(&mut db, message("m1", 100, "hi"));
    assert_eq!(again, nothing());
}

#[test]
fn other_events_are_forwarded_as_they_are() {
    let (mut actor, mut db) = setup(subscription());
    let d = actor.handle_listener_event_at(
        &mut db,
        ListenerEvent::ConnectionStateChanged(ConnectionState::Degraded),
        NOON_WEDNESDAY,
    );
    assert_eq!(
        d,
        Delivery {
            stored: false,
            notification: None,
            broadcast: Some(ListenerEvent::ConnectionStateChanged(ConnectionState::Degraded)),
        }
    );
    let d = actor.handle_listener_event_at(&mut db, ListenerEvent::PollStarted, NOON_WEDNESDAY);
    assert_eq!(d.broadcast, Some(ListenerEvent::PollStarted));
    let d = actor.handle_listener_event_at(
        &mut db,
        ListenerEvent::Message(message("m1", 5, "x")),
        NOON_WEDNESDAY,
    );
    assert!(d.stored);
}

#[test]
fn update_info_keeps_server_topic_and_cursor() {
    let mut model = subscription();
    model.read_until = 50;
    let (mut actor, mut db) = setup(model);
    let mut new_model = Subscription::builder("elsewhere".to_string())
        .server("http://other.example".to_string())
        .display_name("Shown".to_string())
        .muted(true)
        .build()
        .unwrap();
    new_model.read_until = 7;
    new_model.rules = Some(vec![rule("x", FilterAction::Mute)]);
    actor.update_info(&mut db, new_model).unwrap();
    let now = actor.model();
    assert_eq!(now.server, SERVER);
    assert_eq!(now.topic, "alerts");
    assert_eq!(now.read_until, 50);
    assert_eq!(now.display_name.as_deref(), Some("Shown"));
    assert!(now.muted);
    assert_eq!(now.rules, Some(vec![rule("x", FilterAction::Mute)]));
    assert_eq!(db.list_subscriptions().unwrap(), vec![now]);
}

#[test]
fn update_info_without_a_stored_subscription_changes_nothing() {
    let mut actor = SubscriptionActor::new(subscription());
    let mut db = Db::new();
    let mut new_model = subscription();
    new_model.muted = true;
    assert!(matches!(actor.update_info(&mut db, new_model), Err(Error::SubscriptionNotFound(_))));
    assert!(!actor.model().muted);
}

#[test]
fn read_cursor_only_moves_up() {
    let (mut actor, mut db) = setup(subscription());
    let mut seen = 0;
    for t in [10u64, 5, 10, 300, 299, 0, 301] {
        actor.update_read_until(&mut db, t).unwrap();
        let now = actor.model().read_until;
        assert!(now >= seen);
        assert_eq!(now, seen.max(t));
        assert_eq!(db.list_subscriptions().unwrap()[0].read_until, now);
        seen = now;
    }
    assert_eq!(seen, 301);
}

#[test]
fn read_cursor_without_a_stored_subscription() {
    let mut actor = SubscriptionActor::new(subscription());
    let mut db = Db::new();
    assert!(actor.update_read_until(&mut db, 0).is_ok());
    assert!(matches!(actor.update_read_until(&mut db, 5), Err(Error::SubscriptionNotFound(_))));
    assert_eq!(actor.model().read_until, 0);
}

#[test]
fn attach_replays_history_and_state() {
    let (mut actor, mut db) = setup(subscription());
    actor.handle_msg_event_at(&mut db, message("b", 200, "second"), NOON_WEDNESDAY);
    actor.handle_msg_event_at(&mut db, message("a", 100, "first"), NOON_WEDNESDAY);
    let events = actor.attach(&db, ConnectionState::Up);
    assert_eq!(
        events,
        vec![
            ListenerEvent::Message(message("a", 100, "first")),
            ListenerEvent::Message(message("b", 200, "second")),
            ListenerEvent::ConnectionStateChanged(ConnectionState::Up),
        ]
    );
    let empty = SubscriptionActor::new(subscription()).attach(&Db::new(), ConnectionState::Down);
    assert_eq!(empty, vec![ListenerEvent::ConnectionStateChanged(ConnectionState::Down)]);
}

#[test]
fn clear_notifications_deletes_the_messages() {
    let (mut actor, mut db) = setup(subscription());
    actor.handle_msg_event_at(&mut db, message("a", 100, "first"), NOON_WEDNESDAY);
    assert!(actor.clear_notifications(&mut db).is_ok());
    assert!(db.list_messages(SERVER, "alerts", 0).unwrap().is_empty());
    assert!(matches!(actor.clear_notifications(&mut db), Err(Error::SubscriptionNotFound(_))));
    assert_eq!(db.list_subscriptions().unwrap().len(), 1);
}

#[test]
fn publish_in_the_clear() {
    let actor = SubscriptionActor::new(subscription());
    let keys = Keys::new();
    let mut logins = Credentials::new();
    let request = actor.prepare_publish(&keys, &logins, outgoing(Some("hello")), false).unwrap();
    assert_eq!(request.server, SERVER);
    assert_eq!(request.topic, "alerts");
    assert_eq!(request.message, outgoing(Some("hello")));
    assert_eq!(request.basic_auth, None);
    assert_eq!(request.timeout_secs, 30);
    logins.insert(SERVER, "ann", "pw", Ok(())).unwrap();
    logins.insert("https://other.example", "bob", "pw", Ok(())).unwrap();
    let request = actor.prepare_publish(&keys, &logins, outgoing(None), false).unwrap();
    assert_eq!(
        request.basic_auth,
        Some(Credential { username: "ann".to_string(), password: "pw".to_string() })
    );
    assert_eq!(request.message.message, None);
}

#[test]
fn encrypted_publish() {
    let actor = SubscriptionActor::new(subscription());
    let key: Vec<u8> = (100u8..132).collect();
    let key_text = STANDARD.encode(&key);
    let keys = Keys::new_nullable(vec![((SERVER.to_string(), "alerts".to_string()), key_text.clone())])
        .unwrap();
    let logins = Credentials::new();
    let request = actor.prepare_publish(&keys, &logins, outgoing(Some("hello")), true).unwrap();
    let text = request.message.message.clone().unwrap();
    let payload = STANDARD.decode(&text).unwrap();
    assert_eq!(payload[0], 0x01);
    assert_eq!(payload.len(), 1 + 12 + 5 + 16);
    assert_eq!(open_message(&key_text, &text), Some(b"hello".to_vec()));
    // The other fields stay in the clear.
    assert_eq!(request.message.title, Some("T".to_string()));
    assert_eq!(request.message.tags, Some(vec!["tag".to_string()]));
    assert_eq!(request.message.priority, Some(4));
    // A fresh nonce each time.
    let again = actor.prepare_publish(&keys, &logins, outgoing(Some("hello")), true).unwrap();
    assert_ne!(again.message.message, request.message.message);
    // No body: the empty plaintext is sealed.
    let bare = actor.prepare_publish(&keys, &logins, outgoing(None), true).unwrap();
    assert_eq!(open_message(&key_text, &bare.message.message.unwrap()), Some(vec![]));
}

#[test]
fn encrypted_publish_with_a_given_nonce() {
    let actor = SubscriptionActor::new(subscription());
    let key_text = STANDARD.encode([5u8; 32]);
    let keys = Keys::new_nullable(vec![((SERVER.to_string(), "alerts".to_string()), key_text.clone())])
        .unwrap();
    let nonce = vec![1u8, 2, 3, 4, 5, 6, 7, 8, 9, 10, 11, 12];
    let request = actor
        .prepare_publish_with(&keys, &Credentials::new(), outgoing(Some("hello")), true, &nonce)
        .unwrap();
    let payload = STANDARD.decode(request.message.message.unwrap()).unwrap();
    assert_eq!(&payload[1..13], nonce.as_slice());
}

#[test]
fn encrypted_publish_needs_a_good_key() {
    let actor = SubscriptionActor::new(subscription());
    let logins = Credentials::new();
    let none = Keys::new_nullable(vec![(("https://ntfy.sh".to_string(), "other".to_string()), "x".to_string())])
        .unwrap();
    assert!(matches!(
        actor.prepare_publish(&none, &logins, outgoing(Some("hello")), true),
        Err(Error::NoEncryptionKey)
    ));
    let short = Keys::new_nullable(vec![(
        (SERVER.to_string(), "alerts".to_string()),
        STANDARD.encode([1u8; 16]),
    )])
    .unwrap();
    assert!(matches!(
        actor.prepare_publish(&short, &logins, outgoing(Some("hello")), true),
        Err(Error::BadKey)
    ));
    let garbage =
        Keys::new_nullable(vec![((SERVER.to_string(), "alerts".to_string()), "???".to_string())]).unwrap();
    assert!(matches!(
        actor.prepare_publish(&garbage, &logins, outgoing(Some("hello")), true),
        Err(Error::BadKey)
    ));
    // Without encryption the key does not matter.
    assert!(actor.prepare_publish(&garbage, &logins, outgoing(Some("hello")), false).is_ok());
}

#[test]
fn publish_outcome_by_status() {
    assert!(publish_outcome(200).is_ok());
    assert!(publish_outcome(204).is_ok());
    assert!(publish_outcome(299).is_ok());
    assert!(matches!(publish_outcome(199), Err(Error::Http(HttpFailure::Status(199)))));
    assert!(matches!(publish_outcome(300), Err(Error::Http(HttpFailure::Status(300)))));
    assert!(matches!(publish_outcome(401), Err(Error::Http(HttpFailure::Status(401)))));
    assert!(matches!(publish_outcome(500), Err(Error::Http(HttpFailure::Status(500)))));
    assert!(matches!(publish_outcome(0), Err(Error::Http(HttpFailure::Status(0)))));
}

#[test]
fn commands_are_answered() {
    let (mut actor, mut db) = setup(subscription());
    let keys = Keys::new();
    let logins = Credentials::new();
    let state = ConnectionState::Up;
    match actor.handle_command(&mut db, &keys, &logins, state, SubscriptionCommand::GetModel) {
        CommandReply::Model(m) => assert_eq!(m, subscription()),
        other => panic!("unexpected: {:?}", other),
    }
    let mut new_model = subscription();
    new_model.archived = true;
    let update = SubscriptionCommand::UpdateInfo { new_model };
    assert!(matches!(
        actor.handle_command(&mut db, &keys, &logins, state, update),
        CommandReply::Updated(Ok(()))
    ));
    assert!(actor.model().archived);
    actor.handle_msg_event_at(&mut db, message("a", 100, "first"), NOON_WEDNESDAY);
    match actor.handle_command(&mut db, &keys, &logins, state, SubscriptionCommand::Attach) {
        CommandReply::Attached(events) => assert_eq!(events.len(), 2),
        other => panic!("unexpected: {:?}", other),
    }
    let publish = SubscriptionCommand::Publish { msg: outgoing(Some("x")), encrypt: true };
    assert!(matches!(
        actor.handle_command(&mut db, &keys, &logins, state, publish),
        CommandReply::Publish(Err(Error::NoEncryptionKey))
    ));
    let read = SubscriptionCommand::UpdateReadUntil { timestamp: 77 };
    assert!(matches!(
        actor.handle_command(&mut db, &keys, &logins, state, read),
        CommandReply::ReadUntilUpdated(Ok(()))
    ));
    assert_eq!(actor.model().read_until, 77);
    assert!(matches!(
        actor.handle_command(&mut db, &keys, &logins, state, SubscriptionCommand::ClearNotifications),
        CommandReply::Cleared(Ok(()))
    ));
    assert!(db.list_messages(SERVER, "alerts", 0).unwrap().is_empty());
}
