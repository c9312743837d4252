//! What the two caches of the credential vault share: the items of the
//! secret store as plain values, and tables kept as lists of rows.

use vstd::prelude::*;
use vstd::utf8::{decode_utf8, valid_utf8};

verus! {

/// One item of the secret store: its attributes and its secret.
#[derive(Debug, PartialEq, Eq)]
pub struct KeyringItem {
    /// Pairs of an attribute's name and its value.
    pub attributes: Vec<(String, String)>,
    pub secret: Vec<u8>,
}

/// The view of a [`KeyringItem`].
pub struct KeyringItemView {
    pub attributes: Seq<(Seq<char>, Seq<char>)>,
    pub secret: Seq<u8>,
}

impl DeepView for KeyringItem {
    type V = KeyringItemView;

    open spec fn deep_view(&self) -> KeyringItemView {
        KeyringItemView { attributes: self.attributes.deep_view(), secret: self.secret@ }
    }
}

impl View for KeyringItem {
    type V = KeyringItemView;

    open spec fn view(&self) -> KeyringItemView {
        self.deep_view()
    }
}

/// The value of the first attribute called `name`, if there is one.
pub open spec fn attribute(attributes: Seq<(Seq<char>, Seq<char>)>, name: Seq<char>) -> Option<
    Seq<char>,
>
    decreases attributes.len(),
{
    if attributes.len() == 0 {
        None
    } else if attributes[0].0 == name {
        Some(attributes[0].1)
    } else {
        attribute(attributes.drop_first(), name)
    }
}

/// Looks an attribute up by its name.
pub fn find_attribute<'a>(attributes: &'a Vec<(String, String)>, name: &str) -> (r: Option<
    &'a String,
>)
    ensures
        r.deep_view() == attribute(attributes.deep_view(), name@),
{
    let wanted: String = name.to_owned();
    let mut i: usize = 0;
    assert(attributes.deep_view().subrange(0, attributes.len() as int) =~= attributes.deep_view());
    while i < attributes.len()
        invariant
            i <= attributes.len(),
            wanted@ == name@,
            attribute(attributes.deep_view(), name@) == attribute(
                attributes.deep_view().subrange(i as int, attributes.len() as int),
                name@,
            ),
        decreases attributes.len() - i,
    {
        let ghost rest = attributes.deep_view().subrange(i as int, attributes.len() as int);
        assert(rest[0] == attributes@[i as int].deep_view());
        assert(rest.drop_first() =~= attributes.deep_view().subrange(
            i + 1,
            attributes.len() as int,
        ));
        if attributes[i].0 == wanted {
            return Some(&attributes[i].1);
        }
        i = i + 1;
    }
    None
}

/// Reads bytes as UTF-8 text with `String::from_utf8`, which accepts
/// exactly the valid encodings and gives the text that they encode.
#[verifier::external_body]
pub(crate) fn text_from_utf8(bytes: Vec<u8>) -> (r: Option<String>)
    ensures
        r is Some <==> valid_utf8(bytes@),
        r matches Some(s) ==> s@ == decode_utf8(bytes@),
{
    match String::from_utf8(bytes) {
        Ok(text) => Some(text),
        Err(_) => None,
    }
}

/// The table that a list of rows stands for: each row binds its key to its
/// value, and a later row replaces an earlier one with the same key.
pub open spec fn table_of<E, K, V>(rows: Seq<E>, key: spec_fn(E) -> K, value: spec_fn(E) -> V) -> Map<
    K,
    V,
>
    decreases rows.len(),
{
    if rows.len() == 0 {
        Map::empty()
    } else {
        table_of(rows.drop_last(), key, value).insert(key(rows.last()), value(rows.last()))
    }
}

/// Whether no two rows have the same key.
pub open spec fn distinct_keys<E, K>(rows: Seq<E>, key: spec_fn(E) -> K) -> bool {
    forall|i: int, j: int| 0 <= i < j < rows.len() ==> key(rows[i]) != key(rows[j])
}

/// The table binds exactly the keys of its rows.
pub proof fn lemma_table_domain<E, K, V>(
    rows: Seq<E>,
    key: spec_fn(E) -> K,
    value: spec_fn(E) -> V,
    k: K,
)
    ensures
        table_of(rows, key, value).contains_key(k) <==> exists|i: int|
            0 <= i < rows.len() && key(#[trigger] rows[i]) == k,
    decreases rows.len(),
{
    if rows.len() > 0 {
        let rest = rows.drop_last();
        lemma_table_domain(rest, key, value, k);
        if exists|i: int| 0 <= i < rest.len() && key(#[trigger] rest[i]) == k {
            let i = choose|i: int| 0 <= i < rest.len() && key(#[trigger] rest[i]) == k;
            assert(rows[i] == rest[i]);
        }
        if exists|i: int| 0 <= i < rows.len() && key(#[trigger] rows[i]) == k {
            let i = choose|i: int| 0 <= i < rows.len() && key(#[trigger] rows[i]) == k;
            if i < rest.len() {
                assert(rest[i] == rows[i]);
            }
        }
    }
}

/// With distinct keys, the table binds the key of each row to that row's
/// value.
pub proof fn lemma_table_lookup<E, K, V>(
    rows: Seq<E>,
    key: spec_fn(E) -> K,
    value: spec_fn(E) -> V,
    at: int,
)
    requires
        distinct_keys(rows, key),
        0 <= at < rows.len(),
    ensures
        table_of(rows, key, value).contains_key(key(rows[at])),
        table_of(rows, key, value)[key(rows[at])] == value(rows[at]),
    decreases rows.len(),
{
    let rest = rows.drop_last();
    if at < rows.len() - 1 {
        assert forall|i: int, j: int| 0 <= i < j < rest.len() implies key(rest[i]) != key(
            rest[j],
        ) by {
            assert(rest[i] == rows[i] && rest[j] == rows[j]);
        }
        lemma_table_lookup(rest, key, value, at);
        assert(rest[at] == rows[at]);
    }
}

/// With distinct keys, taking a row out takes its key out of the table, and
/// the keys that are left are distinct.
pub proof fn lemma_table_remove<E, K, V>(
    rows: Seq<E>,
    key: spec_fn(E) -> K,
    value: spec_fn(E) -> V,
    at: int,
)
    requires
        distinct_keys(rows, key),
        0 <= at < rows.len(),
    ensures
        table_of(rows.remove(at), key, value) == table_of(rows, key, value).remove(key(rows[at])),
        distinct_keys(rows.remove(at), key),
    decreases rows.len(),
{
    let rest = rows.drop_last();
    let out = rows.remove(at);
    assert forall|i: int, j: int| 0 <= i < j < out.len() implies key(out[i]) != key(out[j]) by {
        let a = if i < at { i } else { i + 1 };
        let b = if j < at { j } else { j + 1 };
        assert(out[i] == rows[a] && out[j] == rows[b]);
    }
    assert forall|i: int, j: int| 0 <= i < j < rest.len() implies key(rest[i]) != key(rest[j]) by {
        assert(rest[i] == rows[i] && rest[j] == rows[j]);
    }
    if at == rows.len() - 1 {
        assert(out =~= rest);
        lemma_table_domain(rest, key, value, key(rows[at]));
        if table_of(rest, key, value).contains_key(key(rows[at])) {
            let i = choose|i: int| 0 <= i < rest.len() && key(#[trigger] rest[i]) == key(rows[at]);
            assert(rest[i] == rows[i]);
        }
        assert(table_of(rest, key, value) =~= table_of(rows, key, value).remove(key(rows[at])));
    } else {
        lemma_table_remove(rest, key, value, at);
        assert(out.drop_last() =~= rest.remove(at));
        assert(out.last() == rows.last());
        assert(rest[at] == rows[at]);
        assert(table_of(out, key, value) =~= table_of(rows, key, value).remove(key(rows[at])));
    }
}

/// Adding a row with a new key keeps the keys distinct.
pub proof fn lemma_table_push<E, K, V>(
    rows: Seq<E>,
    key: spec_fn(E) -> K,
    value: spec_fn(E) -> V,
    row: E,
)
    requires
        distinct_keys(rows, key),
        !table_of(rows, key, value).contains_key(key(row)),
    ensures
        distinct_keys(rows.push(row), key),
        table_of(rows.push(row), key, value) == table_of(rows, key, value).insert(
            key(row),
            value(row),
        ),
{
    let more = rows.push(row);
    assert(more.drop_last() =~= rows);
    assert forall|i: int, j: int| 0 <= i < j < more.len() implies key(more[i]) != key(more[j]) by {
        if j == rows.len() {
            lemma_table_domain(rows, key, value, key(row));
            assert(more[i] == rows[i]);
        }
    }
}

/// With distinct keys, a table has as many keys as it has rows.
pub proof fn lemma_table_size<E, K, V>(rows: Seq<E>, key: spec_fn(E) -> K, value: spec_fn(E) -> V)
    requires
        distinct_keys(rows, key),
    ensures
        table_of(rows, key, value).dom().finite(),
        table_of(rows, key, value).dom().len() == rows.len(),
    decreases rows.len(),
{
    if rows.len() > 0 {
        let rest = rows.drop_last();
        assert forall|i: int, j: int| 0 <= i < j < rest.len() implies key(rest[i]) != key(rest[j]) by {
            assert(rest[i] == rows[i] && rest[j] == rows[j]);
        }
        lemma_table_size(rest, key, value);
        lemma_table_domain(rest, key, value, key(rows.last()));
        if table_of(rest, key, value).contains_key(key(rows.last())) {
            let i = choose|i: int| 0 <= i < rest.len() && key(#[trigger] rest[i]) == key(rows.last());
            assert(rest[i] == rows[i]);
        }
        assert(table_of(rows, key, value).dom() =~= table_of(rest, key, value).dom().insert(
            key(rows.last()),
        ));
    } else {
        assert(table_of(rows, key, value).dom() =~= Set::empty());
    }
}

} // verus!
