use ntfy_daemon::credentials::Credentials;
use ntfy_daemon::error::Error;
use ntfy_daemon::keys::Keys;
use ntfy_daemon::listener::{ListenerCommand, ListenerEffect, ListenerInput, StreamEvent};
use ntfy_daemon::message_repo::{pending_migrations, Db};
use ntfy_daemon::models::{
    Account, ConnectionState, ListenerEvent, ReceivedMessage, Subscription, TopicKey,
};
use ntfy_daemon::registry::Registry;
use ntfy_daemon::schedule::LocalTime;
use ntfy_daemon::subscription::{CommandReply, SubscriptionCommand};

const SERVER: &str = "https://ntfy.sh";

const NOON: LocalTime = LocalTime { weekday: 3, hour: 12, minute: 0 };

fn registry() -> Registry {
    Registry::new(Db::new(), Keys::new(), Credentials::new())
}

fn message(id: &str, time: u64) -> ReceivedMessage {
    ReceivedMessage {
        id: id.to_string(),
        time,
        event: "message".to_string(),
        topic: "alerts".to_string(),
        message: Some("hi".to_string()),
        title: None,
        tags: None,
        priority: None,
        actions: None,
    }
}

fn model(r: &mut Registry, server: &str, topic: &str) -> Option<Subscription> {
    match r.command(server, topic, SubscriptionCommand::GetModel) {
        Some(CommandReply::Model(m)) => Some(m),
        None => None,
        other => panic!("unexpected: {:?}", other),
    }
}

#[test]
fn migrations() {
    assert_eq!(pending_migrations(0).unwrap(), vec![1, 2]);
    assert_eq!(pending_migrations(1).unwrap(), vec![2]);
    assert_eq!(pending_migrations(2).unwrap(), Vec::<i32>::new());
    assert_eq!(pending_migrations(-5).unwrap(), vec![1, 2]);
    assert!(matches!(pending_migrations(3), Err(Error::Db(_))));
    assert!(matches!(pending_migrations(i32::MAX), Err(Error::Db(_))));
}

#[test]
fn get_subscription_finds_the_row() {
    let mut db = Db::new();
    let mut sub = Subscription::builder("alerts".to_string()).build().unwrap();
    sub.muted = true;
    db.insert_subscription(sub.clone()).unwrap();
    assert_eq!(db.get_subscription(SERVER, "alerts"), Some(sub));
    assert_eq!(db.get_subscription(SERVER, "other"), None);
    assert_eq!(db.get_subscription("https://x.example", "alerts"), None);
}

#[test]
fn subscribe_creates_record_and_live_subscription() {
    let mut r = registry();
    let sub = r.subscribe(SERVER, "alerts").unwrap();
    assert_eq!(sub, Subscription::builder("alerts".to_string()).build().unwrap());
    assert_eq!(r.list_subscriptions(), vec![sub.clone()]);
    assert_eq!(model(&mut r, SERVER, "alerts"), Some(sub));
    assert_eq!(model(&mut r, SERVER, "other"), None);
}

#[test]
fn subscribe_twice_keeps_one() {
    let mut r = registry();
    r.subscribe(SERVER, "alerts").unwrap();
    let update = SubscriptionCommand::UpdateReadUntil { timestamp: 9 };
    assert!(matches!(
        r.command(SERVER, "alerts", update),
        Some(CommandReply::ReadUntilUpdated(Ok(())))
    ));
    let again = r.subscribe(SERVER, "alerts").unwrap();
    assert_eq!(again.read_until, 9);
    assert_eq!(r.list_subscriptions().len(), 1);
}

#[test]
fn subscribe_validates() {
    let mut r = registry();
    match r.subscribe("nope", "a b") {
        Err(Error::InvalidSubscription(errs)) => assert_eq!(errs.len(), 2),
        other => panic!("unexpected: {:?}", other),
    }
    assert!(matches!(r.subscribe(SERVER, ""), Err(Error::InvalidSubscription(_))));
    assert!(r.list_subscriptions().is_empty());
    assert_eq!(model(&mut r, "nope", "a b"), None);
}

#[test]
fn subscribe_takes_over_a_stored_record() {
    let mut db = Db::new();
    let mut stored = Subscription::builder("alerts".to_string()).build().unwrap();
    stored.display_name = Some("Stored".to_string());
    stored.read_until = 42;
    db.insert_subscription(stored.clone()).unwrap();
    let mut r = Registry::new(db, Keys::new(), Credentials::new());
    assert_eq!(model(&mut r, SERVER, "alerts"), None);
    assert_eq!(r.subscribe(SERVER, "alerts").unwrap(), stored);
    assert_eq!(model(&mut r, SERVER, "alerts"), Some(stored));
}

#[test]
fn listing_makes_every_stored_subscription_live() {
    let mut db = Db::new();
    for topic in ["a", "b", "c"] {
        db.insert_subscription(Subscription::builder(topic.to_string()).build().unwrap()).unwrap();
    }
    let mut r = Registry::new(db, Keys::new(), Credentials::new());
    r.subscribe(SERVER, "b").unwrap();
    let listed = r.list_subscriptions();
    assert_eq!(listed.iter().map(|s| s.topic.as_str()).collect::<Vec<_>>(), vec!["a", "b", "c"]);
    for topic in ["a", "b", "c"] {
        assert!(model(&mut r, SERVER, topic).is_some());
    }
    assert_eq!(r.list_subscriptions().len(), 3);
}

#[test]
fn unsubscribe_ends_listener_and_removes_record_and_messages() {
    let mut r = registry();
    r.subscribe(SERVER, "alerts").unwrap();
    r.subscribe(SERVER, "other").unwrap();
    assert_eq!(
        r.listener_input_with(SERVER, "alerts", ListenerInput::Start, 0),
        Some(vec![ListenerEffect::Connect])
    );
    assert!(r.message(SERVER, "alerts", message("m1", 100), NOON).unwrap().stored);
    let effects = r.unsubscribe(SERVER, "alerts").unwrap();
    assert_eq!(effects, vec![ListenerEffect::Disconnect]);
    assert_eq!(model(&mut r, SERVER, "alerts"), None);
    let listed = r.list_subscriptions();
    assert_eq!(listed.len(), 1);
    assert_eq!(listed[0].topic, "other");
    assert!(matches!(r.unsubscribe(SERVER, "alerts"), Err(Error::SubscriptionNotFound(_))));
    // The messages went with the record: the id is free again.
    r.subscribe(SERVER, "alerts").unwrap();
    assert!(r.message(SERVER, "alerts", message("m1", 100), NOON).unwrap().stored);
}

#[test]
fn messages_and_commands_reach_their_subscription() {
    let mut r = registry();
    r.subscribe(SERVER, "alerts").unwrap();
    r.subscribe(SERVER, "other").unwrap();
    assert!(r.message(SERVER, "missing", message("m0", 1), NOON).is_none());
    let d = r.message(SERVER, "alerts", message("m1", 100), NOON).unwrap();
    assert!(d.stored && d.notification.is_some());
    let dup = r.message(SERVER, "alerts", message("m1", 100), NOON).unwrap();
    assert!(!dup.stored && dup.notification.is_none() && dup.broadcast.is_none());
    r.listener_input_with(SERVER, "alerts", ListenerInput::Start, 0);
    r.listener_input_with(SERVER, "alerts", ListenerInput::Event(StreamEvent::Keepalive), 0);
    match r.command(SERVER, "alerts", SubscriptionCommand::Attach) {
        Some(CommandReply::Attached(events)) => assert_eq!(
            events,
            vec![
                ListenerEvent::Message(message("m1", 100)),
                ListenerEvent::ConnectionStateChanged(ConnectionState::Up),
            ]
        ),
        other => panic!("unexpected: {:?}", other),
    }
    match r.command(SERVER, "other", SubscriptionCommand::Attach) {
        Some(CommandReply::Attached(events)) => {
            assert_eq!(events, vec![ListenerEvent::ConnectionStateChanged(ConnectionState::Down)])
        }
        other => panic!("unexpected: {:?}", other),
    }
    assert!(r.command(SERVER, "missing", SubscriptionCommand::GetModel).is_none());
}

#[test]
fn listener_inputs_reach_their_listener() {
    let mut r = registry();
    r.subscribe(SERVER, "alerts").unwrap();
    assert_eq!(r.listener_input(SERVER, "missing", ListenerInput::Start), None);
    assert_eq!(r.listener_input(SERVER, "alerts", ListenerInput::Start), Some(vec![ListenerEffect::Connect]));
    let effects = r.listener_input(SERVER, "alerts", ListenerInput::Failed).unwrap();
    assert_eq!(effects.len(), 2);
    assert_eq!(effects[0], ListenerEffect::Announce(ConnectionState::Degraded));
    match effects[1] {
        ListenerEffect::Sleep(ms) => assert!((800..=1200).contains(&ms)),
        other => panic!("unexpected: {:?}", other),
    }
    assert_eq!(
        r.listener_input(SERVER, "alerts", ListenerInput::Command(ListenerCommand::QueryState)),
        Some(vec![ListenerEffect::Reply(ConnectionState::Degraded)])
    );
}

#[test]
fn accounts_and_keys_go_to_the_vault() {
    let mut r = registry();
    assert!(r.list_accounts().is_empty());
    assert!(r.list_keys().is_empty());
    r.add_account(SERVER, "ann", "pw", Ok(())).unwrap();
    assert!(r.add_account("https://x.example", "bob", "pw", Err(Error::VaultError("no".into()))).is_err());
    assert_eq!(r.list_accounts(), vec![Account { server: SERVER.into(), username: "ann".into() }]);
    r.put_key(SERVER, "alerts", "k", Ok(())).unwrap();
    assert!(r.put_key(SERVER, "other", "k", Err(Error::VaultError("no".into()))).is_err());
    assert_eq!(
        r.list_keys(),
        vec![TopicKey { server: SERVER.into(), topic: "alerts".into(), key: "k".into() }]
    );
    assert!(r.remove_key(SERVER, "alerts", Err(Error::VaultError("no".into()))).is_err());
    assert_eq!(r.list_keys().len(), 1);
    r.remove_key(SERVER, "alerts", Ok(())).unwrap();
    assert!(r.list_keys().is_empty());
    assert!(r.remove_account(SERVER, Err(Error::VaultError("no".into()))).is_err());
    assert_eq!(r.list_accounts().len(), 1);
    r.remove_account(SERVER, Ok(())).unwrap();
    assert!(r.list_accounts().is_empty());
}

#[test]
fn publish_through_the_registry_uses_the_vault() {
    let mut r = registry();
    r.subscribe(SERVER, "alerts").unwrap();
    r.add_account(SERVER, "ann", "pw", Ok(())).unwrap();
    let msg = ntfy_daemon::models::OutgoingMessage {
        message: Some("x".to_string()),
        title: None,
        tags: None,
        priority: None,
        actions: None,
    };
    match r.command(SERVER, "alerts", SubscriptionCommand::Publish { msg, encrypt: false }) {
        Some(CommandReply::Publish(Ok(request))) => {
            assert_eq!(request.basic_auth.unwrap().username, "ann");
            assert_eq!(request.server, SERVER);
        }
        other => panic!("unexpected: {:?}", other),
    }
}

#[test]
fn stream_address_resumes_after_the_latest_message() {
    let mut r = registry();
    r.subscribe(SERVER, "alerts").unwrap();
    assert_eq!(r.stream_url(SERVER, "alerts"), "https://ntfy.sh/alerts/json");
    r.message(SERVER, "alerts", message("m1", 100), NOON).unwrap();
    r.message(SERVER, "alerts", message("m2", 1712000000), NOON).unwrap();
    r.message(SERVER, "alerts", message("m3", 500), NOON).unwrap();
    assert_eq!(r.stream_url(SERVER, "alerts"), "https://ntfy.sh/alerts/json?since=1712000001");
    assert_eq!(r.stream_url(SERVER, "other"), "https://ntfy.sh/other/json");
}

#[test]
fn login_for_a_server() {
    let mut r = registry();
    assert_eq!(r.login_for(SERVER), None);
    r.add_account(SERVER, "ann", "pw", Ok(())).unwrap();
    let login = r.login_for(SERVER).unwrap();
    assert_eq!((login.username.as_str(), login.password.as_str()), ("ann", "pw"));
    assert_eq!(r.login_for("https://x.example"), None);
}

#[test]
fn messages_by_the_clock() {
    let mut r = registry();
    r.subscribe(SERVER, "alerts").unwrap();
    let d = r.message_now(SERVER, "alerts", message("m1", 100)).unwrap();
    assert!(d.stored);
    assert!(d.notification.is_some());
    assert!(r.message_now(SERVER, "missing", message("m2", 100)).is_none());
    let dup = r.message_now(SERVER, "alerts", message("m1", 100)).unwrap();
    assert!(!dup.stored);
}
