//! The cache of server logins: for a server, the user name and the
//! password. Like the cache of topic keys, it changes only when the caller
//! reports that the secret store took the change.

use vstd::prelude::*;
use vstd::utf8::{decode_utf8, valid_utf8};
use crate::error::Error;
use crate::models::Account;
use crate::vault::{
    attribute, distinct_keys, find_attribute, lemma_table_domain, lemma_table_lookup,
    lemma_table_push, lemma_table_remove, lemma_table_size, table_of, text_from_utf8, KeyringItem, KeyringItemView,
};

verus! {

/// The label under which a login is filed in the secret store.
pub const CREDENTIAL_LABEL: &'static str = "Ntfyr Server Credential";

/// A login: who, and with which password.
#[derive(Debug, PartialEq, Eq)]
pub struct Credential {
    pub username: String,
    pub password: String,
}

/// The view of a [`Credential`].
pub struct CredentialView {
    pub username: Seq<char>,
    pub password: Seq<char>,
}

impl DeepView for Credential {
    type V = CredentialView;

    open spec fn deep_view(&self) -> CredentialView {
        CredentialView { username: self.username@, password: self.password@ }
    }
}

impl View for Credential {
    type V = CredentialView;

    open spec fn view(&self) -> CredentialView {
        self.deep_view()
    }
}

/// What the cache holds: for a server, the login.
pub type LoginTable = Map<Seq<char>, CredentialView>;

/// A row of the cache, as a server and its login.
pub type LoginRow = (Seq<char>, CredentialView);

/// The server of a row, as a function.
pub open spec fn by_server() -> spec_fn(LoginRow) -> Seq<char> {
    |r: LoginRow| r.0
}

/// The login of a row, as a function.
pub open spec fn by_login() -> spec_fn(LoginRow) -> CredentialView {
    |r: LoginRow| r.1
}

/// The table of a list of rows; a later row replaces an earlier one for the
/// same server.
pub open spec fn logins_of(rows: Seq<LoginRow>) -> LoginTable {
    table_of(rows, by_server(), by_login())
}

/// The table that the items of the secret store load to. An item without
/// a `server` or a `username` attribute is passed over; the secret of any
/// other item is its password, as UTF-8 text. A later item replaces an
/// earlier one for the same server. Where a secret that counts is not
/// UTF-8, nothing loads.
pub open spec fn loaded_logins(items: Seq<KeyringItemView>) -> Option<LoginTable>
    decreases items.len(),
{
    if items.len() == 0 {
        Some(Map::empty())
    } else {
        match loaded_logins(items.drop_last()) {
            None => None,
            Some(table) => {
                let item = items.last();
                match (
                    attribute(item.attributes, "server"@),
                    attribute(item.attributes, "username"@),
                ) {
                    (Some(server), Some(username)) => if valid_utf8(item.secret) {
                        Some(
                            table.insert(
                                server,
                                CredentialView { username, password: decode_utf8(item.secret) },
                            ),
                        )
                    } else {
                        None
                    },
                    _ => Some(table),
                }
            },
        }
    }
}

/// The attributes under which the login on `server` is filed.
pub open spec fn credential_attributes_of(server: Seq<char>, username: Seq<char>) -> Seq<
    (Seq<char>, Seq<char>),
> {
    seq![("type"@, "server_credential"@), ("server"@, server), ("username"@, username)]
}

/// The cache of server logins.
#[derive(Debug)]
pub struct Credentials {
    rows: Vec<(String, Credential)>,
}

impl View for Credentials {
    type V = LoginTable;

    closed spec fn view(&self) -> LoginTable {
        logins_of(self.rows.deep_view())
    }
}

impl Credentials {
    /// The invariant of the cache: no server is filed twice.
    pub closed spec fn wf(&self) -> bool {
        distinct_keys(self.rows.deep_view(), by_server())
    }

    /// An empty cache.
    pub fn new() -> (logins: Credentials)
        ensures
            logins.wf(),
            logins@ == LoginTable::empty(),
    {
        let logins = Credentials { rows: Vec::new() };
        assert(logins.rows.deep_view() =~= Seq::empty());
        logins
    }

    fn find(&self, server: &String) -> (r: Option<usize>)
        requires
            self.wf(),
        ensures
            r matches Some(i) ==> i < self.rows.len() && self.rows@[i as int].0@ == server@
                && self@.contains_key(server@) && self@[server@] == self.rows@[i as int].1@,
            r is None ==> !self@.contains_key(server@),
    {
        let mut i: usize = 0;
        while i < self.rows.len()
            invariant
                i <= self.rows.len(),
                self.wf(),
                forall|k: int| 0 <= k < i ==> (#[trigger] self.rows.deep_view()[k]).0 != server@,
            decreases self.rows.len() - i,
        {
            if self.rows[i].0 == *server {
                proof {
                    lemma_table_lookup(self.rows.deep_view(), by_server(), by_login(), i as int);
                }
                return Some(i);
            }
            i = i + 1;
        }
        proof {
            lemma_table_domain(self.rows.deep_view(), by_server(), by_login(), server@);
        }
        None
    }

    fn put(&mut self, server: String, login: Credential)
        requires
            old(self).wf(),
        ensures
            final(self).wf(),
            final(self)@ == old(self)@.insert(server@, login@),
    {
        match self.find(&server) {
            Some(i) => {
                let ghost before = self.rows.deep_view();
                let _ = self.rows.remove(i);
                assert(self.rows.deep_view() =~= before.remove(i as int));
                proof {
                    lemma_table_remove(before, by_server(), by_login(), i as int);
                }
            },
            None => {},
        }
        let ghost rows = self.rows.deep_view();
        let ghost row = (server@, login@);
        self.rows.push((server, login));
        assert(self.rows.deep_view() =~= rows.push(row));
        proof {
            lemma_table_push(rows, by_server(), by_login(), row);
            assert(final(self)@ =~= old(self)@.insert(server@, login@));
        }
    }

    /// A cache that holds `logins`: for each server its login. Where a
    /// server occurs twice, the later login counts.
    pub fn new_nullable(logins: Vec<(String, Credential)>) -> (r: Credentials)
        ensures
            r.wf(),
            r@ == logins_of(logins.deep_view()),
    {
        let mut cache = Credentials::new();
        let ghost all = logins.deep_view();
        let mut i: usize = 0;
        assert(all.subrange(0, 0) =~= Seq::empty());
        while i < logins.len()
            invariant
                i <= logins.len(),
                cache.wf(),
                all == logins.deep_view(),
                cache@ == logins_of(all.subrange(0, i as int)),
            decreases logins.len() - i,
        {
            let row = &logins[i];
            assert(all.subrange(0, i + 1).drop_last() =~= all.subrange(0, i as int));
            assert(all[i as int] == (row.0@, row.1@));
            cache.put(
                row.0.clone(),
                Credential { username: row.1.username.clone(), password: row.1.password.clone() },
            );
            i = i + 1;
        }
        assert(all.subrange(0, i as int) =~= all);
        cache
    }

    /// Replaces what the cache holds by what `items`, the items that the
    /// secret store found, load to. Where they do not load, the answer is
    /// `VaultError` and the cache stays as it was.
    pub fn load(&mut self, items: Vec<KeyringItem>) -> (r: Result<(), Error>)
        requires
            old(self).wf(),
        ensures
            final(self).wf(),
            r is Ok <==> loaded_logins(items.deep_view()) is Some,
            r is Ok ==> Some(final(self)@) == loaded_logins(items.deep_view()),
            r matches Err(e) ==> e is VaultError && final(self)@ == old(self)@,
    {
        let mut fresh = Credentials::new();
        let ghost all = items.deep_view();
        let mut i: usize = 0;
        assert(all.subrange(0, 0) =~= Seq::empty());
        while i < items.len()
            invariant
                i <= items.len(),
                fresh.wf(),
                all == items.deep_view(),
                loaded_logins(all.subrange(0, i as int)) == Some(fresh@),
                *self == *old(self),
                self.wf(),
            decreases items.len() - i,
        {
            assert(all.subrange(0, i + 1).drop_last() =~= all.subrange(0, i as int));
            assert(all.subrange(0, i + 1).last() == items@[i as int]@);
            let server = match find_attribute(&items[i].attributes, "server") {
                Some(s) => Some(s.clone()),
                None => None,
            };
            let username = match find_attribute(&items[i].attributes, "username") {
                Some(u) => Some(u.clone()),
                None => None,
            };
            match (server, username) {
                (Some(server), Some(username)) => {
                    match text_from_utf8(items[i].secret.clone()) {
                        Some(password) => {
                            fresh.put(server, Credential { username, password });
                        },
                        None => {
                            proof {
                                lemma_load_fails_for_good(all, i + 1);
                            }
                            return Err(
                                Error::VaultError(
                                    String::from_str("a stored password is not UTF-8 text"),
                                ),
                            );
                        },
                    }
                },
                _ => {},
            }
            i = i + 1;
        }
        assert(all.subrange(0, i as int) =~= all);
        self.rows = fresh.rows;
        Ok(())
    }

    /// The login on `server`, if the cache holds one.
    pub fn get(&self, server: &str) -> (r: Option<Credential>)
        requires
            self.wf(),
        ensures
            r is Some <==> self@.contains_key(server@),
            r matches Some(login) ==> login@ == self@[server@],
    {
        let server_name: String = server.to_owned();
        match self.find(&server_name) {
            Some(i) => Some(
                Credential {
                    username: self.rows[i].1.username.clone(),
                    password: self.rows[i].1.password.clone(),
                },
            ),
            None => None,
        }
    }

    /// The attributes under which the login of `username` on `server` is
    /// filed in the secret store.
    pub fn item_attributes(server: &str, username: &str) -> (r: Vec<(String, String)>)
        ensures
            r.deep_view() == credential_attributes_of(server@, username@),
    {
        let mut out: Vec<(String, String)> = Vec::new();
        out.push((String::from_str("type"), String::from_str("server_credential")));
        out.push((String::from_str("server"), server.to_owned()));
        out.push((String::from_str("username"), username.to_owned()));
        assert(out.deep_view() =~= credential_attributes_of(server@, username@));
        out
    }

    /// Files a login for `server`, once the secret store has been asked
    /// to keep it: `stored` is what the secret store answered. Where it
    /// failed, its error is handed on and the cache stays as it was.
    pub fn insert(
        &mut self,
        server: &str,
        username: &str,
        password: &str,
        stored: Result<(), Error>,
    ) -> (r: Result<(), Error>)
        requires
            old(self).wf(),
        ensures
            final(self).wf(),
            r == stored,
            r is Ok ==> final(self)@ == old(self)@.insert(
                server@,
                CredentialView { username: username@, password: password@ },
            ),
            r is Err ==> final(self)@ == old(self)@,
    {
        if stored.is_ok() {
            self.put(
                server.to_owned(),
                Credential { username: username.to_owned(), password: password.to_owned() },
            );
        }
        stored
    }

    /// Forgets the login on `server`, once the secret store has been asked
    /// to delete it: `deleted` is what the secret store answered. Where it
    /// failed, its error is handed on and the cache stays as it was.
    pub fn delete(&mut self, server: &str, deleted: Result<(), Error>) -> (r: Result<(), Error>)
        requires
            old(self).wf(),
        ensures
            final(self).wf(),
            r == deleted,
            r is Ok ==> final(self)@ == old(self)@.remove(server@),
            r is Err ==> final(self)@ == old(self)@,
    {
        if deleted.is_ok() {
            let server_name: String = server.to_owned();
            match self.find(&server_name) {
                Some(i) => {
                    let ghost before = self.rows.deep_view();
                    let _ = self.rows.remove(i);
                    assert(self.rows.deep_view() =~= before.remove(i as int));
                    proof {
                        lemma_table_remove(before, by_server(), by_login(), i as int);
                    }
                },
                None => {
                    assert(self@ =~= self@.remove(server@));
                },
            }
        }
        deleted
    }

    /// The accounts that the cache holds, one for each server, without
    /// their passwords.
    pub fn list_all(&self) -> (r: Vec<Account>)
        requires
            self.wf(),
        ensures
            r.len() == self@.dom().len(),
            forall|k: int|
                0 <= k < r.len() ==> self@.contains_key(#[trigger] r@[k].server@)
                    && self@[r@[k].server@].username == r@[k].username@,
            forall|server: Seq<char>|
                self@.contains_key(server) ==> exists|k: int|
                    0 <= k < r.len() && #[trigger] r@[k].server@ == server,
    {
        let mut out: Vec<Account> = Vec::new();
        let mut i: usize = 0;
        while i < self.rows.len()
            invariant
                i <= self.rows.len(),
                out.len() == i,
                forall|k: int|
                    0 <= k < i ==> (#[trigger] out@[k]).server@ == self.rows@[k].0@
                        && out@[k].username@ == self.rows@[k].1.username@,
            decreases self.rows.len() - i,
        {
            let row = &self.rows[i];
            out.push(Account { server: row.0.clone(), username: row.1.username.clone() });
            i = i + 1;
        }
        proof {
            let rows = self.rows.deep_view();
            assert forall|k: int| 0 <= k < out.len() implies self@.contains_key(
                #[trigger] out@[k].server@,
            ) && self@[out@[k].server@].username == out@[k].username@ by {
                lemma_table_lookup(rows, by_server(), by_login(), k);
                assert(rows[k].0 == out@[k].server@);
            }
            assert forall|server: Seq<char>| self@.contains_key(server) implies exists|k: int|
                0 <= k < out.len() && #[trigger] out@[k].server@ == server by {
                lemma_table_domain(rows, by_server(), by_login(), server);
                let k = choose|k: int| 0 <= k < rows.len() && by_server()(#[trigger] rows[k]) == server;
                assert(out@[k].server@ == server);
            }
            lemma_table_size(rows, by_server(), by_login());
        }
        out
    }
}

proof fn lemma_load_fails_for_good(items: Seq<KeyringItemView>, upto: int)
    requires
        0 <= upto <= items.len(),
        loaded_logins(items.subrange(0, upto)) is None,
    ensures
        loaded_logins(items) is None,
    decreases items.len() - upto,
{
    if upto < items.len() {
        assert(items.subrange(0, upto + 1).drop_last() =~= items.subrange(0, upto));
        lemma_load_fails_for_good(items, upto + 1);
    } else {
        assert(items.subrange(0, upto) =~= items);
    }
}

} // verus!
