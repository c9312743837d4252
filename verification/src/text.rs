//! Small helpers on strings and characters, stated over `Seq<char>`.

use vstd::prelude::*;

verus! {

/// The characters of `s`, one by one.
pub fn chars_of(s: &str) -> (out: Vec<char>)
    ensures
        out@ == s@,
{
    let n: usize = s.unicode_len();
    let mut out: Vec<char> = Vec::new();
    let mut i: usize = 0;
    while i < n
        invariant
            n == s@.len(),
            i <= n,
            out@ == s@.subrange(0, i as int),
        decreases n - i,
    {
        out.push(s.get_char(i));
        i = i + 1;
        assert(out@ =~= s@.subrange(0, i as int));
    }
    assert(s@.subrange(0, n as int) =~= s@);
    out
}

/// Whether two string slices hold the same characters.
pub fn same_text(a: &str, b: &str) -> (r: bool)
    ensures
        r == (a@ == b@),
{
    let x: String = a.to_owned();
    let y: String = b.to_owned();
    x == y
}

/// Whether `c` is an ASCII decimal digit.
pub open spec fn is_digit(c: char) -> bool {
    '0' <= c && c <= '9'
}

/// The value of the ASCII decimal digit `c`.
pub open spec fn digit_value(c: char) -> nat
    recommends
        is_digit(c),
{
    (c as u32 - '0' as u32) as nat
}

pub fn digit_of(c: char) -> (d: Option<u8>)
    ensures
        d is Some <==> is_digit(c),
        d matches Some(v) ==> v as nat == digit_value(c) && v <= 9,
{
    if c >= '0' && c <= '9' {
        Some(((c as u32) - ('0' as u32)) as u8)
    } else {
        None
    }
}

/// Whether `s` begins with `prefix`.
pub open spec fn begins_with(s: Seq<char>, prefix: Seq<char>) -> bool {
    prefix.len() <= s.len() && s.subrange(0, prefix.len() as int) == prefix
}

/// Whether `chars` begins with `prefix`.
pub fn has_prefix(chars: &Vec<char>, prefix: &Vec<char>) -> (r: bool)
    ensures
        r == begins_with(chars@, prefix@),
{
    if prefix.len() > chars.len() {
        return false;
    }
    let mut i: usize = 0;
    while i < prefix.len()
        invariant
            i <= prefix.len() <= chars.len(),
            chars@.subrange(0, i as int) == prefix@.subrange(0, i as int),
        decreases prefix.len() - i,
    {
        if chars[i] != prefix[i] {
            proof {
                if begins_with(chars@, prefix@) {
                    assert(chars@.subrange(0, prefix.len() as int)[i as int] == prefix@[i as int]);
                }
            }
            return false;
        }
        i = i + 1;
        assert(chars@.subrange(0, i as int) =~= chars@.subrange(0, i - 1).push(chars@[i - 1]));
        assert(prefix@.subrange(0, i as int) =~= prefix@.subrange(0, i - 1).push(prefix@[i - 1]));
    }
    assert(prefix@.subrange(0, prefix.len() as int) =~= prefix@);
    true
}

} // verus!
