//! What makes a topic and a server acceptable.

use vstd::prelude::*;
use crate::error::Error;
use crate::text::{begins_with, chars_of, has_prefix};

verus! {

/// The longest topic that a server accepts.
pub const MAX_TOPIC_LEN: usize = 64;

/// Whether `c` may stand in a topic: an ASCII letter, a digit, `_` or `-`.
pub open spec fn is_topic_char(c: char) -> bool {
    ('a' <= c && c <= 'z') || ('A' <= c && c <= 'Z') || ('0' <= c && c <= '9') || c == '_' || c
        == '-'
}

/// A topic is valid when it has between 1 and 64 characters, each of them
/// an ASCII letter, a digit, `_` or `-`.
pub open spec fn valid_topic(topic: Seq<char>) -> bool {
    &&& 1 <= topic.len() <= 64
    &&& forall|i: int| 0 <= i < topic.len() ==> is_topic_char(#[trigger] topic[i])
}

/// The characters `http://`.
pub open spec fn http_prefix() -> Seq<char> {
    seq!['h', 't', 't', 'p', ':', '/', '/']
}

/// The characters `https://`.
pub open spec fn https_prefix() -> Seq<char> {
    seq!['h', 't', 't', 'p', 's', ':', '/', '/']
}

/// Whether a host begins at position `at` of `s`: a character stands there,
/// and it is none of `/`, `?` and `#`.
pub open spec fn names_host(s: Seq<char>, at: int) -> bool {
    0 <= at < s.len() && s[at] != '/' && s[at] != '?' && s[at] != '#'
}

/// A server is valid when it is an absolute URL of scheme `http` or `https`:
/// the scheme, `://`, and then a host.
pub open spec fn valid_server(server: Seq<char>) -> bool {
    ||| begins_with(server, http_prefix()) && names_host(server, 7)
    ||| begins_with(server, https_prefix()) && names_host(server, 8)
}

fn topic_char(c: char) -> (r: bool)
    ensures
        r == is_topic_char(c),
{
    (c >= 'a' && c <= 'z') || (c >= 'A' && c <= 'Z') || (c >= '0' && c <= '9') || c == '_' || c
        == '-'
}

/// Whether `topic` is a valid topic.
pub fn is_valid_topic(topic: &str) -> (r: bool)
    ensures
        r == valid_topic(topic@),
{
    let chars = chars_of(topic);
    let n: usize = chars.len();
    if n < 1 || n > MAX_TOPIC_LEN {
        return false;
    }
    let mut i: usize = 0;
    while i < n
        invariant
            n == chars.len(),
            chars@ == topic@,
            i <= n,
            forall|k: int| 0 <= k < i ==> is_topic_char(#[trigger] chars@[k]),
        decreases n - i,
    {
        if !topic_char(chars[i]) {
            assert(!is_topic_char(topic@[i as int]));
            return false;
        }
        i = i + 1;
    }
    true
}

/// Accepts `topic` and hands it back, or refuses it with `InvalidTopic`,
/// which then holds the topic.
pub fn validate_topic<'a>(topic: &'a str) -> (r: Result<&'a str, Error>)
    ensures
        r is Ok <==> valid_topic(topic@),
        r matches Ok(t) ==> t@ == topic@,
        r matches Err(e) ==> (e matches Error::InvalidTopic(t) && t@ == topic@),
{
    if is_valid_topic(topic) {
        Ok(topic)
    } else {
        Err(Error::InvalidTopic(topic.to_owned()))
    }
}

fn host_at(chars: &Vec<char>, at: usize) -> (r: bool)
    ensures
        r == names_host(chars@, at as int),
{
    at < chars.len() && chars[at] != '/' && chars[at] != '?' && chars[at] != '#'
}

/// Whether `server` is a valid server.
pub fn is_valid_server(server: &str) -> (r: bool)
    ensures
        r == valid_server(server@),
{
    let chars = chars_of(server);
    let http: Vec<char> = vec!['h', 't', 't', 'p', ':', '/', '/'];
    let https: Vec<char> = vec!['h', 't', 't', 'p', 's', ':', '/', '/'];
    assert(http@ =~= http_prefix());
    assert(https@ =~= https_prefix());
    (has_prefix(&chars, &http) && host_at(&chars, 7)) || (has_prefix(&chars, &https) && host_at(
        &chars,
        8,
    ))
}

/// Accepts `server` and hands it back, or refuses it with `InvalidServer`,
/// which then holds the server.
pub fn validate_server<'a>(server: &'a str) -> (r: Result<&'a str, Error>)
    ensures
        r is Ok <==> valid_server(server@),
        r matches Ok(s) ==> s@ == server@,
        r matches Err(e) ==> (e matches Error::InvalidServer(s) && s@ == server@),
{
    if is_valid_server(server) {
        Ok(server)
    } else {
        Err(Error::InvalidServer(server.to_owned()))
    }
}

} // verus!
