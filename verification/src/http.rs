//! What goes over HTTP: the address of a subscription's stream, and the
//! header that carries a login.

use vstd::prelude::*;
use vstd::utf8::encode_utf8;
use crate::credentials::{Credential, CredentialView};
use crate::crypto::{base64_text, encodable_len, encode_base64};

verus! {

/// The character of the decimal digit `d`.
pub open spec fn digit_char(d: nat) -> char
    recommends
        d < 10,
{
    (('0' as u8) + d as u8) as char
}

/// `n` in decimal digits, without leading zeros.
pub open spec fn decimal_text(n: nat) -> Seq<char>
    decreases n,
{
    if n < 10 {
        seq![digit_char(n)]
    } else {
        decimal_text(n / 10).push(digit_char(n % 10))
    }
}

/// The time from which a stream is resumed: one second after the latest
/// stored message, so that the message itself is not sent again. Without
/// a stored message the stream is not resumed.
pub open spec fn resume_point(last: Option<u64>) -> Option<u64> {
    match last {
        Some(t) => Some(
            if t == u64::MAX {
                t
            } else {
                (t + 1) as u64
            },
        ),
        None => None,
    }
}

/// The address of the stream of `topic` on `server`: the server, `/`, the
/// topic and `/json`; and then `?since=` and the time, in decimal, where the
/// stream is resumed from a time.
pub open spec fn subscribe_url_of(server: Seq<char>, topic: Seq<char>, since: Option<u64>) -> Seq<
    char,
> {
    let base = server + seq!['/'] + topic + seq!['/', 'j', 's', 'o', 'n'];
    match since {
        Some(t) => base + seq!['?', 's', 'i', 'n', 'c', 'e', '='] + decimal_text(t as nat),
        None => base,
    }
}

/// Appends one character with `String::push`.
#[verifier::external_body]
pub(crate) fn push_char(text: &mut String, c: char)
    ensures
        final(text)@ == old(text)@.push(c),
{
    text.push(c);
}

fn push_all(text: &mut String, chars: &Vec<char>)
    ensures
        final(text)@ == old(text)@ + chars@,
{
    let mut i: usize = 0;
    while i < chars.len()
        invariant
            i <= chars.len(),
            text@ == old(text)@ + chars@.subrange(0, i as int),
        decreases chars.len() - i,
    {
        push_char(text, chars[i]);
        i = i + 1;
        assert(text@ =~= old(text)@ + chars@.subrange(0, i as int));
    }
    assert(chars@.subrange(0, i as int) =~= chars@);
}

/// `n` in decimal digits.
pub fn decimal(n: u64) -> (digits: Vec<char>)
    ensures
        digits@ == decimal_text(n as nat),
{
    let mut reversed: Vec<char> = Vec::new();
    let mut rest: u64 = n;
    while rest >= 10
        invariant
            decimal_text(n as nat) == decimal_text(rest as nat) + reversed@.reverse(),
        decreases rest,
    {
        let d: u8 = (rest % 10) as u8;
        let c: char = (('0' as u8) + d) as char;
        let ghost before = reversed@;
        reversed.push(c);
        assert(reversed@.reverse() =~= seq![c] + before.reverse());
        assert(decimal_text(rest as nat) == decimal_text((rest / 10) as nat).push(c));
        assert(decimal_text((rest / 10) as nat).push(c) + before.reverse() =~= decimal_text(
            (rest / 10) as nat,
        ) + (seq![c] + before.reverse()));
        rest = rest / 10;
    }
    let last: char = (('0' as u8) + (rest as u8)) as char;
    let mut digits: Vec<char> = Vec::new();
    digits.push(last);
    let mut i: usize = reversed.len();
    while i > 0
        invariant
            i <= reversed.len(),
            digits@ == seq![last] + reversed@.reverse().subrange(0, reversed.len() - i),
        decreases i,
    {
        i = i - 1;
        digits.push(reversed[i]);
        assert(digits@ =~= seq![last] + reversed@.reverse().subrange(0, reversed.len() - i));
    }
    assert(reversed@.reverse().subrange(0, reversed.len() as int) =~= reversed@.reverse());
    digits
}

/// The time from which to resume a stream whose latest stored message has
/// the time `last`.
pub fn resume_from(last: Option<u64>) -> (since: Option<u64>)
    ensures
        since == resume_point(last),
{
    match last {
        Some(t) => Some(
            if t == u64::MAX {
                t
            } else {
                t + 1
            },
        ),
        None => None,
    }
}

/// The address of the stream of `topic` on `server`, resumed from `since`
/// where that is a time.
pub fn subscribe_url(server: &str, topic: &str, since: Option<u64>) -> (url: String)
    ensures
        url@ == subscribe_url_of(server@, topic@, since),
{
    let mut url: String = server.to_owned();
    push_char(&mut url, '/');
    url.append(topic);
    let tail: Vec<char> = vec!['/', 'j', 's', 'o', 'n'];
    push_all(&mut url, &tail);
    assert(url@ =~= server@ + seq!['/'] + topic@ + seq!['/', 'j', 's', 'o', 'n']);
    match since {
        Some(t) => {
            let query: Vec<char> = vec!['?', 's', 'i', 'n', 'c', 'e', '='];
            push_all(&mut url, &query);
            let digits = decimal(t);
            push_all(&mut url, &digits);
            assert(url@ =~= subscribe_url_of(server@, topic@, since));
        },
        None => {},
    }
    url
}

/// The bytes that a login is encoded from: the user name, `:` and the
/// password, as UTF-8.
pub open spec fn login_bytes(login: CredentialView) -> Seq<u8> {
    encode_utf8(login.username + seq![':'] + login.password)
}

/// The value of the `Authorization` header for a login: `Basic`, a space,
/// and the base64 text of the user name, `:` and the password.
pub open spec fn basic_auth_of(login: CredentialView) -> Seq<char> {
    "Basic "@ + base64_text(login_bytes(login))
}

/// The value of the `Authorization` header for `login`; none where the
/// login is too long for its base64 text to fit in memory.
pub fn basic_auth_header(login: &Credential) -> (r: Option<String>)
    ensures
        r is Some <==> encodable_len(login_bytes(login@).len()),
        r matches Some(value) ==> value@ == basic_auth_of(login@),
{
    let mut pair: String = login.username.clone();
    push_char(&mut pair, ':');
    pair.append(login.password.as_str());
    assert(pair@ =~= login@.username + seq![':'] + login@.password);
    let bytes: Vec<u8> = pair.as_str().as_bytes_vec();
    let n: usize = bytes.len();
    if n > usize::MAX - 2 || (n + 2) / 3 > (isize::MAX as usize) / 4 {
        return None;
    }
    let mut value: String = String::from_str("Basic ");
    let text = encode_base64(&bytes);
    value.append(text.as_str());
    Some(value)
}

} // verus!
