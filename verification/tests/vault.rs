use ntfy_daemon::credentials::{Credential, Credentials};
use ntfy_daemon::error::Error;
use ntfy_daemon::keys::Keys;
use ntfy_daemon::models::{Account, TopicKey};
use ntfy_daemon::vault::{find_attribute, KeyringItem};

fn entry(server: &str, topic: &str, key: &str) -> ((String, String), String) {
    ((server.to_string(), topic.to_string()), key.to_string())
}

fn item(attributes: &[(&str, &str)], secret: &[u8]) -> KeyringItem {
    KeyringItem {
        attributes: attributes.iter().map(|(k, v)| (k.to_string(), v.to_string())).collect(),
        secret: secret.to_vec(),
    }
}

fn failed() -> Result<(), Error> {
    Err(Error::VaultError("locked".to_string()))
}

#[test]
fn find_attribute_takes_the_first() {
    let attrs = vec![
        ("type".to_string(), "topic_key".to_string()),
        ("server".to_string(), "a".to_string()),
        ("server".to_string(), "b".to_string()),
    ];
    assert_eq!(find_attribute(&attrs, "server"), Some(&"a".to_string()));
    assert_eq!(find_attribute(&attrs, "type"), Some(&"topic_key".to_string()));
    assert_eq!(find_attribute(&attrs, "topic"), None);
    assert_eq!(find_attribute(&vec![], "topic"), None);
}

#[test]
fn nullable_keys_hold_what_they_were_given() {
    let keys = Keys::new_nullable(vec![
        entry("https://ntfy.sh", "alerts", "k1"),
        entry("https://ntfy.sh", "other", "k2"),
        entry("https://x.example", "alerts", "k3"),
    ])
    .unwrap();
    assert_eq!(keys.get("https://ntfy.sh", "alerts"), Some("k1".to_string()));
    assert_eq!(keys.get("https://ntfy.sh", "other"), Some("k2".to_string()));
    assert_eq!(keys.get("https://x.example", "alerts"), Some("k3".to_string()));
    assert_eq!(keys.get("https://x.example", "other"), None);
    assert_eq!(keys.get("", ""), None);
    assert_eq!(keys.list().len(), 3);
}

#[test]
fn nullable_keys_later_entry_counts() {
    let keys = Keys::new_nullable(vec![
        entry("s", "t", "old"),
        entry("s", "u", "other"),
        entry("s", "t", "new"),
    ])
    .unwrap();
    assert_eq!(keys.get("s", "t"), Some("new".to_string()));
    assert_eq!(keys.get("s", "u"), Some("other".to_string()));
    assert_eq!(keys.list().len(), 2);
}

#[test]
fn empty_keys() {
    let keys = Keys::new();
    assert_eq!(keys.get("s", "t"), None);
    assert!(keys.list().is_empty());
    let nullable = Keys::new_nullable(vec![]).unwrap();
    assert_eq!(nullable.get("s", "t"), None);
}

#[test]
fn key_insert_follows_the_secret_store() {
    let mut keys = Keys::new();
    assert!(keys.insert("s", "t", "k", Ok(())).is_ok());
    assert_eq!(keys.get("s", "t"), Some("k".to_string()));
    let refused = keys.insert("s", "t", "k2", failed());
    assert!(matches!(refused, Err(Error::VaultError(m)) if m == "locked"));
    assert_eq!(keys.get("s", "t"), Some("k".to_string()));
    assert!(keys.insert("s", "u", "x", failed()).is_err());
    assert_eq!(keys.get("s", "u"), None);
    assert!(keys.insert("s", "t", "k3", Ok(())).is_ok());
    assert_eq!(keys.get("s", "t"), Some("k3".to_string()));
    assert_eq!(keys.list().len(), 1);
}

#[test]
fn key_delete_follows_the_secret_store() {
    let mut keys = Keys::new_nullable(vec![entry("s", "t", "k"), entry("s", "u", "l")]).unwrap();
    assert!(keys.delete("s", "t", failed()).is_err());
    assert_eq!(keys.get("s", "t"), Some("k".to_string()));
    assert!(keys.delete("s", "t", Ok(())).is_ok());
    assert_eq!(keys.get("s", "t"), None);
    assert_eq!(keys.get("s", "u"), Some("l".to_string()));
    assert!(keys.delete("s", "missing", Ok(())).is_ok());
    assert_eq!(
        keys.list(),
        vec![TopicKey { server: "s".into(), topic: "u".into(), key: "l".into() }]
    );
}

#[test]
fn key_attributes() {
    assert_eq!(
        Keys::item_attributes("https://ntfy.sh", "alerts"),
        vec![
            ("type".to_string(), "topic_key".to_string()),
            ("server".to_string(), "https://ntfy.sh".to_string()),
            ("topic".to_string(), "alerts".to_string()),
        ]
    );
}

#[test]
fn keys_load_from_items() {
    let mut keys = Keys::new_nullable(vec![entry("old", "old", "old")]).unwrap();
    let loaded = keys.load(vec![
        item(&[("type", "topic_key"), ("server", "s"), ("topic", "t")], b"k1"),
        item(&[("type", "topic_key"), ("server", "s")], &[0xff]),
        item(&[("topic", "u"), ("server", "s")], "schl\u{fc}ssel".as_bytes()),
        item(&[("type", "topic_key"), ("server", "s"), ("topic", "t")], b"k2"),
    ]);
    assert!(loaded.is_ok());
    assert_eq!(keys.get("s", "t"), Some("k2".to_string()));
    assert_eq!(keys.get("s", "u"), Some("schl\u{fc}ssel".to_string()));
    assert_eq!(keys.get("old", "old"), None);
    assert_eq!(keys.list().len(), 2);
}

#[test]
fn keys_do_not_load_a_secret_that_is_not_text() {
    let mut keys = Keys::new_nullable(vec![entry("old", "old", "old")]).unwrap();
    let loaded = keys.load(vec![
        item(&[("server", "s"), ("topic", "t")], b"k1"),
        item(&[("server", "s"), ("topic", "u")], &[0xc3, 0x28]),
    ]);
    assert!(matches!(loaded, Err(Error::VaultError(_))));
    assert_eq!(keys.get("old", "old"), Some("old".to_string()));
    assert_eq!(keys.get("s", "t"), None);
}

#[test]
fn credentials_follow_the_secret_store() {
    let mut logins = Credentials::new();
    assert_eq!(logins.get("https://ntfy.sh"), None);
    assert!(logins.insert("https://ntfy.sh", "ann", "pw", Ok(())).is_ok());
    assert_eq!(
        logins.get("https://ntfy.sh"),
        Some(Credential { username: "ann".into(), password: "pw".into() })
    );
    assert!(logins.insert("https://ntfy.sh", "bob", "pw2", failed()).is_err());
    assert_eq!(logins.get("https://ntfy.sh").unwrap().username, "ann");
    assert!(logins.insert("https://ntfy.sh", "bob", "pw2", Ok(())).is_ok());
    assert_eq!(
        logins.list_all(),
        vec![Account { server: "https://ntfy.sh".into(), username: "bob".into() }]
    );
    assert!(logins.delete("https://ntfy.sh", failed()).is_err());
    assert_eq!(logins.list_all().len(), 1);
    assert!(logins.delete("https://ntfy.sh", Ok(())).is_ok());
    assert_eq!(logins.get("https://ntfy.sh"), None);
    assert!(logins.list_all().is_empty());
}

#[test]
fn credentials_load_from_items() {
    let mut logins = Credentials::new();
    let loaded = logins.load(vec![
        item(&[("type", "server_credential"), ("server", "a"), ("username", "ann")], b"pw"),
        item(&[("type", "server_credential"), ("server", "b")], b"ignored"),
    ]);
    assert!(loaded.is_ok());
    assert_eq!(logins.get("a"), Some(Credential { username: "ann".into(), password: "pw".into() }));
    assert_eq!(logins.get("b"), None);
    let broken = logins.load(vec![item(&[("server", "c"), ("username", "u")], &[0x80])]);
    assert!(matches!(broken, Err(Error::VaultError(_))));
    assert_eq!(logins.get("a").unwrap().password, "pw");
}

#[test]
fn credential_attributes() {
    assert_eq!(
        Credentials::item_attributes("https://ntfy.sh", "ann"),
        vec![
            ("type".to_string(), "server_credential".to_string()),
            ("server".to_string(), "https://ntfy.sh".to_string()),
            ("username".to_string(), "ann".to_string()),
        ]
    );
}

#[test]
fn nullable_credentials_hold_what_they_were_given() {
    let login = |u: &str, p: &str| Credential { username: u.to_string(), password: p.to_string() };
    let logins = Credentials::new_nullable(vec![
        ("a".to_string(), login("ann", "1")),
        ("b".to_string(), login("bob", "2")),
        ("a".to_string(), login("amy", "3")),
    ]);
    assert_eq!(logins.get("a"), Some(login("amy", "3")));
    assert_eq!(logins.get("b"), Some(login("bob", "2")));
    assert_eq!(logins.get("c"), None);
    assert_eq!(logins.list_all().len(), 2);
}
