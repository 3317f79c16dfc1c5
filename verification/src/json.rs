use vstd::prelude::*;

verus! {

/// A JSON number is carried through unchanged: nothing here reads it.
#[verifier::external_type_specification]
#[verifier::external_body]
pub struct ExJsonNumber(serde_json::Number);

/// A JSON document. Objects are association lists; callers that build one from
/// parsed text give each key once (see `entries_distinct`).
#[derive(Debug, PartialEq)]
pub enum JsonValue {
    Null,
    Bool(bool),
    Number(serde_json::Number),
    Str(String),
    Array(Vec<JsonValue>),
    Object(Vec<(String, JsonValue)>),
}

/// The mathematical value of a JSON document: strings as character sequences.
pub enum JsonView {
    Null,
    Bool(bool),
    Number(serde_json::Number),
    Str(Seq<char>),
    Array(Seq<JsonView>),
    Object(Seq<(Seq<char>, JsonView)>),
}

pub open spec fn json_view(v: JsonValue) -> JsonView
    decreases v,
{
    match v {
        JsonValue::Null => JsonView::Null,
        JsonValue::Bool(b) => JsonView::Bool(b),
        JsonValue::Number(n) => JsonView::Number(n),
        JsonValue::Str(s) => JsonView::Str(s@),
        JsonValue::Array(items) => {
            proof {
                assert(decreases_to!(v => items));
                assert(decreases_to!(items => items@));
            }
            JsonView::Array(items_view(items@))
        },
        JsonValue::Object(entries) => {
            proof {
                assert(decreases_to!(v => entries));
                assert(decreases_to!(entries => entries@));
            }
            JsonView::Object(entries_view(entries@))
        },
    }
}

pub open spec fn items_view(items: Seq<JsonValue>) -> Seq<JsonView>
    decreases items,
{
    if items.len() == 0 {
        seq![]
    } else {
        let rest = items.subrange(0, items.len() - 1);
        let last = items[items.len() - 1];
        proof {
            assert(decreases_to!(items => rest));
            assert(decreases_to!(items => last));
        }
        items_view(rest).push(json_view(last))
    }
}

pub open spec fn entries_view(entries: Seq<(String, JsonValue)>) -> Seq<(Seq<char>, JsonView)>
    decreases entries,
{
    if entries.len() == 0 {
        seq![]
    } else {
        let rest = entries.subrange(0, entries.len() - 1);
        let last = entries[entries.len() - 1];
        proof {
            assert(decreases_to!(entries => rest));
            assert(decreases_to!(entries => last));
            assert(decreases_to!(last => last.1));
        }
        entries_view(rest).push((last.0@, json_view(last.1)))
    }
}

/// Each entry's view is the view of the entry at the same place.
pub proof fn lemma_entries_view(entries: Seq<(String, JsonValue)>)
    ensures
        entries_view(entries).len() == entries.len(),
        forall|i: int|
            0 <= i < entries.len() ==> #[trigger] entries_view(entries)[i] == (
            entries[i].0@,
            json_view(entries[i].1),
        ),
    decreases entries.len(),
{
    if entries.len() > 0 {
        lemma_entries_view(entries.subrange(0, entries.len() - 1));
    }
}

/// `i` is the first place at which `key` occurs in `entries`.
pub open spec fn is_first_key(entries: Seq<(Seq<char>, JsonView)>, key: Seq<char>, i: int) -> bool {
    &&& 0 <= i < entries.len()
    &&& entries[i].0 == key
    &&& forall|j: int| 0 <= j < i ==> entries[j].0 != key
}

/// `key` occurs in the object's entries.
pub open spec fn has_key(entries: Seq<(Seq<char>, JsonView)>, key: Seq<char>) -> bool {
    exists|i: int| is_first_key(entries, key, i)
}

/// Where `key` first occurs in the entries (meaningful when `has_key`).
pub open spec fn key_position(entries: Seq<(Seq<char>, JsonView)>, key: Seq<char>) -> int {
    choose|i: int| is_first_key(entries, key, i)
}

/// The value that the object holds under `key`, as a JSON object lookup sees it.
pub open spec fn lookup(entries: Seq<(Seq<char>, JsonView)>, key: Seq<char>) -> Option<JsonView> {
    if has_key(entries, key) {
        Some(entries[key_position(entries, key)].1)
    } else {
        None
    }
}

/// The entries after setting `key` to `value`: an existing key keeps its place
/// and takes the new value; a new key goes at the end.
pub open spec fn upsert(entries: Seq<(Seq<char>, JsonView)>, key: Seq<char>, value: JsonView) -> Seq<
    (Seq<char>, JsonView),
> {
    if has_key(entries, key) {
        entries.update(key_position(entries, key), (key, value))
    } else {
        entries.push((key, value))
    }
}

/// No key occurs twice among the entries.
pub open spec fn entries_distinct(entries: Seq<(Seq<char>, JsonView)>) -> bool {
    forall|i: int, j: int| 0 <= i < j < entries.len() ==> entries[i].0 != entries[j].0
}

/// The first place of a key is unique.
pub proof fn lemma_first_key_unique(entries: Seq<(Seq<char>, JsonView)>, key: Seq<char>, i: int)
    requires
        is_first_key(entries, key, i),
    ensures
        has_key(entries, key),
        key_position(entries, key) == i,
        lookup(entries, key) == Some(entries[i].1),
{
    let p = key_position(entries, key);
    assert(is_first_key(entries, key, p));
    if p < i {
        assert(entries[p].0 != key);
    } else if i < p {
        assert(entries[i].0 != key);
    }
}

/// Setting one key leaves what every other key holds.
proof fn lemma_upsert_other_key(
    entries: Seq<(Seq<char>, JsonView)>,
    key: Seq<char>,
    value: JsonView,
    other: Seq<char>,
)
    requires
        other != key,
    ensures
        lookup(upsert(entries, key, value), other) == lookup(entries, other),
{
    let after = upsert(entries, key, value);
    if has_key(entries, other) {
        let q = key_position(entries, other);
        assert(is_first_key(entries, other, q));
        assert(is_first_key(after, other, q));
        lemma_first_key_unique(after, other, q);
    } else if has_key(after, other) {
        let q = key_position(after, other);
        assert(is_first_key(after, other, q));
        assert(q < entries.len() && entries[q].0 == other) by {
            if q == entries.len() {
                assert(after[q].0 == key);
            } else {
                assert(after[q] == entries[q] || after[q].0 == key);
            }
        }
        assert forall|j: int| 0 <= j < q implies entries[j].0 != other by {
            assert(after[j] == entries[j] || (after[j].0 == key && entries[j].0 == key));
        }
        assert(is_first_key(entries, other, q));
    }
}

/// After `upsert`, the key holds the new value and every other key what it held.
pub proof fn lemma_upsert(entries: Seq<(Seq<char>, JsonView)>, key: Seq<char>, value: JsonView)
    ensures
        lookup(upsert(entries, key, value), key) == Some(value),
        forall|other: Seq<char>|
            other != key ==> #[trigger] lookup(upsert(entries, key, value), other) == lookup(
                entries,
                other,
            ),
        entries_distinct(entries) ==> entries_distinct(upsert(entries, key, value)),
        has_key(entries, key) ==> upsert(entries, key, value).len() == entries.len(),
        !has_key(entries, key) ==> upsert(entries, key, value).len() == entries.len() + 1,
{
    let after = upsert(entries, key, value);
    if has_key(entries, key) {
        let p = key_position(entries, key);
        assert(is_first_key(entries, key, p));
        assert(is_first_key(after, key, p));
        lemma_first_key_unique(after, key, p);
    } else {
        let p = entries.len() as int;
        assert forall|j: int| 0 <= j < p implies after[j].0 != key by {
            if after[j].0 == key {
                // the key would then have a first place among the entries
                lemma_some_first_key(entries, key, j);
            }
        }
        assert(is_first_key(after, key, p));
        lemma_first_key_unique(after, key, p);
    }
    assert forall|other: Seq<char>| other != key implies #[trigger] lookup(after, other) == lookup(
        entries,
        other,
    ) by {
        lemma_upsert_other_key(entries, key, value, other);
    }
}

/// Setting a key to the value it already holds changes nothing.
pub proof fn lemma_upsert_same_value(entries: Seq<(Seq<char>, JsonView)>, key: Seq<char>, value: JsonView)
    requires
        lookup(entries, key) == Some(value),
    ensures
        upsert(entries, key, value) == entries,
{
    let p = key_position(entries, key);
    assert(is_first_key(entries, key, p));
    assert(upsert(entries, key, value) =~= entries);
}

/// If the key occurs anywhere, it has a first place.
pub proof fn lemma_some_first_key(entries: Seq<(Seq<char>, JsonView)>, key: Seq<char>, i: int)
    requires
        0 <= i < entries.len(),
        entries[i].0 == key,
    ensures
        has_key(entries, key),
    decreases i,
{
    if forall|j: int| 0 <= j < i ==> entries[j].0 != key {
        assert(is_first_key(entries, key, i));
    } else {
        let j = choose|j: int| 0 <= j < i && entries[j].0 == key;
        lemma_some_first_key(entries, key, j);
    }
}

/// Where `key` first occurs among the entries, if it does.
pub fn find_key(entries: &Vec<(String, JsonValue)>, key: &String) -> (r: Option<usize>)
    ensures
        match r {
            Some(i) => is_first_key(entries_view(entries@), key@, i as int),
            None => !has_key(entries_view(entries@), key@),
        },
{
    let ghost ev = entries_view(entries@);
    proof {
        lemma_entries_view(entries@);
    }
    let n = entries.len();
    let mut i: usize = 0;
    while i < n
        invariant
            n == entries@.len(),
            ev == entries_view(entries@),
            ev.len() == n,
            forall|k: int| 0 <= k < n ==> #[trigger] ev[k] == (entries@[k].0@, json_view(entries@[k].1)),
            i <= n,
            forall|j: int| 0 <= j < i ==> ev[j].0 != key@,
        decreases n - i,
    {
        if entries[i].0 == *key {
            assert(ev[i as int].0 == key@);
            return Some(i);
        }
        i = i + 1;
    }
    proof {
        if has_key(ev, key@) {
            let p = key_position(ev, key@);
            assert(is_first_key(ev, key@, p));
        }
    }
    None
}

/// Sets `key` to `value` in an object's entries, as inserting into a JSON map does.
pub fn object_insert(entries: &mut Vec<(String, JsonValue)>, key: String, value: JsonValue)
    ensures
        entries_view(final(entries)@) == upsert(entries_view(old(entries)@), key@, value@),
{
    let ghost before = entries@;
    proof {
        lemma_entries_view(before);
    }
    match find_key(entries, &key) {
        Some(i) => {
            proof {
                lemma_first_key_unique(entries_view(before), key@, i as int);
            }
            entries.set(i, (key, value));
            proof {
                lemma_entries_view(entries@);
                assert(entries_view(entries@) =~= upsert(entries_view(before), key@, value@));
            }
        },
        None => {
            entries.push((key, value));
            proof {
                lemma_entries_view(entries@);
                assert(entries_view(entries@) =~= upsert(entries_view(before), key@, value@));
            }
        },
    }
}

/// The document has no more than `depth` levels of arrays and objects, one
/// inside another.
pub open spec fn nesting_at_most(doc: JsonView, depth: nat) -> bool
    decreases doc,
{
    match doc {
        JsonView::Array(items) => depth > 0 && forall|i: int|
            0 <= i < items.len() ==> nesting_at_most(#[trigger] items[i], (depth - 1) as nat),
        JsonView::Object(entries) => depth > 0 && forall|i: int|
            0 <= i < entries.len() ==> nesting_at_most(#[trigger] entries[i].1, (depth - 1) as nat),
        _ => true,
    }
}

/// Every object in the document, at every level, gives each key once.
pub open spec fn keys_distinct_everywhere(doc: JsonView) -> bool
    decreases doc,
{
    match doc {
        JsonView::Array(items) => forall|i: int|
            0 <= i < items.len() ==> keys_distinct_everywhere(#[trigger] items[i]),
        JsonView::Object(entries) => entries_distinct(entries) && forall|i: int|
            0 <= i < entries.len() ==> keys_distinct_everywhere(#[trigger] entries[i].1),
        _ => true,
    }
}

/// The document holds no number, at any level.
pub open spec fn number_free(doc: JsonView) -> bool
    decreases doc,
{
    match doc {
        JsonView::Number(_) => false,
        JsonView::Array(items) => forall|i: int| 0 <= i < items.len() ==> number_free(#[trigger] items[i]),
        JsonView::Object(entries) => forall|i: int|
            0 <= i < entries.len() ==> number_free(#[trigger] entries[i].1),
        _ => true,
    }
}

/// The deepest nesting that `serde_json` reads: it refuses the 128th array or
/// object inside another.
pub open spec fn max_read_nesting() -> nat {
    127
}

/// What `serde_json` reads back of the text it writes for the document is the
/// same document: keys are unique, nesting is within what it reads, and there
/// is no number (a float need not read back to the same value).
pub open spec fn reads_back(doc: JsonView) -> bool {
    &&& keys_distinct_everywhere(doc)
    &&& nesting_at_most(doc, max_read_nesting())
    &&& number_free(doc)
}

/// A parsed `serde_json` value, carried through the conversions only.
#[verifier::external_type_specification]
#[verifier::external_body]
pub struct ExJsonValue(serde_json::Value);

/// The view of a document that may be missing.
pub open spec fn opt_json_view(doc: Option<JsonValue>) -> Option<JsonView> {
    match doc {
        Some(d) => Some(d@),
        None => None,
    }
}

/// The document that `serde_json::from_str::<serde_json::Value>` reads from
/// the text, if it reads one.
pub uninterp spec fn json_parsed(text: Seq<char>) -> Option<JsonView>;

/// The text that `serde_json::to_string` writes for the document.
pub uninterp spec fn json_written(doc: JsonView) -> Seq<char>;

/// Converts a `serde_json::Value` to a `JsonValue`, one node for one node
/// (object entries in the map's order). This is the conversion step of
/// `parse_json`; nothing is claimed of it on its own.
#[verifier::external_body]
fn value_from_serde(value: serde_json::Value) -> JsonValue {
    match value {
        serde_json::Value::Null => JsonValue::Null,
        serde_json::Value::Bool(b) => JsonValue::Bool(b),
        serde_json::Value::Number(n) => JsonValue::Number(n),
        serde_json::Value::String(s) => JsonValue::Str(s),
        serde_json::Value::Array(items) => JsonValue::Array(items.into_iter().map(value_from_serde).collect()),
        serde_json::Value::Object(map) => JsonValue::Object(
            map.into_iter().map(|(k, v)| (k, value_from_serde(v))).collect(),
        ),
    }
}

/// Converts a `JsonValue` to a `serde_json::Value`, one node for one node.
/// This is the conversion step of `write_json`; nothing is claimed of it on
/// its own.
#[verifier::external_body]
fn value_to_serde(value: &JsonValue) -> serde_json::Value {
    match value {
        JsonValue::Null => serde_json::Value::Null,
        JsonValue::Bool(b) => serde_json::Value::Bool(*b),
        JsonValue::Number(n) => serde_json::Value::Number(n.clone()),
        JsonValue::Str(s) => serde_json::Value::String(s.clone()),
        JsonValue::Array(items) => serde_json::Value::Array(items.iter().map(value_to_serde).collect()),
        JsonValue::Object(entries) => serde_json::Value::Object(
            entries.iter().map(|(k, v)| (k.clone(), value_to_serde(v))).collect(),
        ),
    }
}

/// Calls `serde_json::from_str::<serde_json::Value>` and converts what it
/// read. Claimed: the result is `json_parsed` of the text (`None` where
/// serde_json refuses the text); a document read has unique keys in every
/// object (its map keeps one entry per key) and at most 127 levels of nesting
/// (its reader refuses the 128th).
#[verifier::external_body]
pub(crate) fn parse_json(text: &str) -> (doc: Option<JsonValue>)
    ensures
        opt_json_view(doc) == json_parsed(text@),
        doc matches Some(d) ==> keys_distinct_everywhere(d@) && nesting_at_most(d@, max_read_nesting()),
{
    serde_json::from_str::<serde_json::Value>(text).ok().map(value_from_serde)
}

/// Calls `serde_json::to_string` on the converted document. Claimed: it
/// succeeds, with `json_written` of the document (serde_json's source
/// serialises a `Value` into an in-memory buffer, where no step can fail);
/// and where `reads_back` holds, `serde_json::from_str` reads the written
/// text back as the same document: strings, booleans and `null` are written
/// exactly, and objects keep their order, since this build's `serde_json`
/// has `preserve_order` (which `bson` turns on).
#[verifier::external_body]
pub(crate) fn write_json(doc: &JsonValue) -> (written: Option<String>)
    ensures
        written is Some,
        written.unwrap()@ == json_written(doc@),
        reads_back(doc@) ==> json_parsed(written.unwrap()@) == Some(doc@),
{
    serde_json::to_string(&value_to_serde(doc)).ok()
}

impl View for JsonValue {
    type V = JsonView;

    open spec fn view(&self) -> JsonView {
        json_view(*self)
    }
}

} // verus!
