use vstd::prelude::*;
use crate::error::ApiError;
use crate::text::texts;
use crate::tasks::{mode_text, mode_text_view, NotificationMode};
use crate::json::{
    entries_view, find_key, has_key, is_first_key, key_position, lemma_entries_view,
    lemma_first_key_unique, lemma_upsert, json_parsed, json_written, opt_json_view, parse_json, write_json, lemma_upsert_same_value, entries_distinct, keys_distinct_everywhere, nesting_at_most, number_free, reads_back, max_read_nesting, lookup, object_insert, upsert, JsonValue, JsonView,
};

verus! {

/// The value that marks "notify me of all messages".
pub open spec fn all_view() -> JsonView {
    JsonView::Str("all"@)
}

/// The document stored for a user who has no readable notification settings:
/// `{"server": {}, "channel": {}}`.
pub open spec fn default_notifications_view() -> JsonView {
    JsonView::Object(
        seq![("server"@, JsonView::Object(seq![])), ("channel"@, JsonView::Object(seq![]))],
    )
}

/// Only an object, or `null` (which becomes an empty object), can take a section.
pub open spec fn can_hold_sections(doc: JsonView) -> bool {
    doc is Null || doc is Object
}

/// The top-level entries of a document (`null` has none).
pub open spec fn top_entries(doc: JsonView) -> Seq<(Seq<char>, JsonView)> {
    match doc {
        JsonView::Object(entries) => entries,
        _ => seq![],
    }
}

/// The settings document after marking `id` as "all" in the object stored
/// under `section`; `None` when `section` holds something that is not an object.
pub open spec fn section_set_to_all(doc: JsonView, section: Seq<char>, id: Seq<char>) -> Option<
    JsonView,
> {
    let entries = top_entries(doc);
    match lookup(entries, section) {
        None => Some(
            JsonView::Object(
                upsert(entries, section, JsonView::Object(upsert(seq![], id, all_view()))),
            ),
        ),
        Some(JsonView::Object(inner)) => Some(
            JsonView::Object(upsert(entries, section, JsonView::Object(upsert(inner, id, all_view())))),
        ),
        Some(_) => None,
    }
}

/// The document that an update starts from: the stored one, or the default.
pub open spec fn stored_or_default(stored: Option<JsonValue>) -> JsonView {
    match stored {
        Some(doc) => doc@,
        None => default_notifications_view(),
    }
}

/// Builds `{"server": {}, "channel": {}}`.
pub fn default_notifications() -> (doc: JsonValue)
    ensures
        doc@ == default_notifications_view(),
{
    let mut entries: Vec<(String, JsonValue)> = Vec::new();
    entries.push((String::from_str("server"), JsonValue::Object(Vec::new())));
    entries.push((String::from_str("channel"), JsonValue::Object(Vec::new())));
    proof {
        reveal_strlit("server");
        reveal_strlit("channel");
        lemma_entries_view(entries@);
        lemma_entries_view(Seq::<(String, JsonValue)>::empty());
        assert(entries_view(entries@) =~= seq![
            ("server"@, JsonView::Object(seq![])),
            ("channel"@, JsonView::Object(seq![])),
        ]);
    }
    JsonValue::Object(entries)
}

/// Marks `id` as "all" inside the object stored under `section` of the
/// settings document, creating the section when it is missing.
pub fn set_section_to_all(doc: JsonValue, section: &str, id: &str) -> (r: Result<JsonValue, ApiError>)
    requires
        can_hold_sections(doc@),
    ensures
        match section_set_to_all(doc@, section@, id@) {
            Some(after) => r matches Ok(d) && d@ == after,
            None => r == Err::<JsonValue, ApiError>(ApiError::InvalidOperation),
        },
        keys_distinct_everywhere(doc@) ==> (r matches Ok(d) ==> keys_distinct_everywhere(d@)),
{
    let ghost doc_view = doc@;
    proof {
        if section_set_to_all(doc_view, section@, id@) is Some {
            lemma_update_preserves(doc_view, section@, id@, 2);
        }
    }
    let mut entries: Vec<(String, JsonValue)> = match doc {
        JsonValue::Object(e) => e,
        _ => Vec::new(),
    };
    proof {
        lemma_entries_view(Seq::<(String, JsonValue)>::empty());
        assert(entries_view(entries@) =~= top_entries(doc_view));
    }
    let ghost before = entries@;
    let section_key = String::from_str(section);
    let id_key = String::from_str(id);
    let all = JsonValue::Str(String::from_str("all"));
    proof {
        reveal_strlit("all");
        assert(all@ == all_view());
        lemma_entries_view(before);
    }
    match find_key(&entries, &section_key) {
        None => {
            let mut inner: Vec<(String, JsonValue)> = Vec::new();
            proof {
                lemma_entries_view(inner@);
                assert(entries_view(inner@) =~= Seq::<(Seq<char>, JsonView)>::empty());
            }
            object_insert(&mut inner, id_key, all);
            object_insert(&mut entries, section_key, JsonValue::Object(inner));
            Ok(JsonValue::Object(entries))
        },
        Some(i) => {
            proof {
                lemma_first_key_unique(entries_view(before), section@, i as int);
            }
            let (key, current) = entries.remove(i);
            match current {
                JsonValue::Object(mut inner) => {
                    object_insert(&mut inner, id_key, all);
                    let ghost updated = JsonValue::Object(inner);
                    entries.insert(i, (key, JsonValue::Object(inner)));
                    proof {
                        assert(entries@ =~= before.update(i as int, (key, updated)));
                        lemma_entries_view(entries@);
                        assert(entries_view(entries@) =~= upsert(
                            entries_view(before),
                            section@,
                            updated@,
                        ));
                    }
                    Ok(JsonValue::Object(entries))
                },
                _ => Err(ApiError::InvalidOperation),
            }
        },
    }
}

/// The stored document, or the default one when nothing readable was stored.
pub fn notifications_or_default(stored: Option<JsonValue>) -> (doc: JsonValue)
    ensures
        doc@ == stored_or_default(stored),
{
    match stored {
        Some(doc) => doc,
        None => default_notifications(),
    }
}

/// Marks a server as "notify for all messages" in a user's notification
/// settings. `stored` is the user's stored settings document when one was
/// found and parsed; otherwise the update starts from the default document.
pub fn set_server_notification_to_all(stored: Option<JsonValue>, server_id: &str) -> (r: Result<
    JsonValue,
    ApiError,
>)
    requires
        stored matches Some(doc) ==> can_hold_sections(doc@),
    ensures
        match section_set_to_all(stored_or_default(stored), "server"@, server_id@) {
            Some(after) => r matches Ok(d) && d@ == after,
            None => r == Err::<JsonValue, ApiError>(ApiError::InvalidOperation),
        },
        keys_distinct_everywhere(stored_or_default(stored)) ==> (r matches Ok(d) ==> keys_distinct_everywhere(d@)),
{
    let doc = notifications_or_default(stored);
    set_section_to_all(doc, "server", server_id)
}

/// Marks a channel as "notify for all messages" in a user's notification
/// settings, starting from the stored document or the default one.
pub fn set_channel_notification_to_all(stored: Option<JsonValue>, channel_id: &str) -> (r: Result<
    JsonValue,
    ApiError,
>)
    requires
        stored matches Some(doc) ==> can_hold_sections(doc@),
    ensures
        match section_set_to_all(stored_or_default(stored), "channel"@, channel_id@) {
            Some(after) => r matches Ok(d) && d@ == after,
            None => r == Err::<JsonValue, ApiError>(ApiError::InvalidOperation),
        },
        keys_distinct_everywhere(stored_or_default(stored)) ==> (r matches Ok(d) ==> keys_distinct_everywhere(d@)),
{
    let doc = notifications_or_default(stored);
    set_section_to_all(doc, "channel", channel_id)
}

/// The view of stored text that may be missing.
pub open spec fn stored_view(stored: Option<&str>) -> Option<Seq<char>> {
    match stored {
        Some(t) => Some(t@),
        None => None,
    }
}

/// The document that an update of stored text starts from: what the text
/// parses to, or the default document when nothing was stored or the text
/// does not parse.
pub open spec fn parsed_or_default(stored: Option<Seq<char>>) -> JsonView {
    match stored {
        Some(t) => match json_parsed(t) {
            Some(doc) => doc,
            None => default_notifications_view(),
        },
        None => default_notifications_view(),
    }
}

/// Stored text can be updated unless it parses to a document that is neither
/// an object nor `null` (on which the update panics).
pub open spec fn text_can_be_updated(stored: Option<Seq<char>>) -> bool {
    stored matches Some(t) ==> (json_parsed(t) matches Some(doc) ==> can_hold_sections(doc))
}

/// The text that an update of stored settings saves, or the update's error.
pub open spec fn updated_text(stored: Option<Seq<char>>, section: Seq<char>, id: Seq<char>) -> Result<
    Seq<char>,
    ApiError,
> {
    match section_set_to_all(parsed_or_default(stored), section, id) {
        Some(after) => Ok(json_written(after)),
        None => Err(ApiError::InvalidOperation),
    }
}

fn parse_stored(stored: Option<&str>) -> (doc: Option<JsonValue>)
    ensures
        opt_json_view(doc) == match stored_view(stored) {
            Some(t) => json_parsed(t),
            None => None,
        },
        doc matches Some(d) ==> keys_distinct_everywhere(d@) && nesting_at_most(d@, max_read_nesting()),
{
    match stored {
        Some(text) => parse_json(text),
        None => None,
    }
}

fn section_settings_text(stored: Option<&str>, section: &str, id: &str) -> (r: Result<String, ApiError>)
    requires
        text_can_be_updated(stored_view(stored)),
    ensures
        match updated_text(stored_view(stored), section@, id@) {
            Ok(t) => r matches Ok(s) && s@ == t,
            Err(e) => r == Err::<String, ApiError>(e),
        },
        saved_text_reads_back(stored_view(stored), section@, id@, r),
{
    let doc = parse_stored(stored);
    let start = notifications_or_default(doc);
    assert(start@ == parsed_or_default(stored_view(stored)));
    proof {
        if stored_view(stored) is None || json_parsed(stored_view(stored).unwrap()) is None {
            lemma_default_reads_back();
        }
    }
    let ghost start_view = start@;
    let updated = set_section_to_all(start, section, id)?;
    proof {
        if number_free(start_view) {
            lemma_update_reads_back(start_view, section@, id@);
        }
    }
    match write_json(&updated) {
        Some(text) => Ok(text),
        None => Err(ApiError::InvalidOperation),
    }
}

/// Where the stored document holds no number, the saved text reads back as
/// the updated document.
pub open spec fn saved_text_reads_back(stored: Option<Seq<char>>, section: Seq<char>, id: Seq<char>, r: Result<String, ApiError>) -> bool {
    number_free(parsed_or_default(stored)) ==> (r matches Ok(s) ==> json_parsed(s@) == section_set_to_all(
        parsed_or_default(stored),
        section,
        id,
    ))
}

/// The default document reads back as written.
pub proof fn lemma_default_reads_back()
    ensures
        reads_back(default_notifications_view()),
{
    reveal_strlit("server");
    reveal_strlit("channel");
    assert("server"@[0] != "channel"@[0]);
    let d = default_notifications_view();
    let entries = top_entries(d);
    assert(entries_distinct(entries));
    assert(nesting_at_most(entries[0].1, 126));
    assert(nesting_at_most(entries[1].1, 126));
    assert(keys_distinct_everywhere(entries[0].1));
    assert(keys_distinct_everywhere(entries[1].1));
    assert(number_free(entries[0].1));
    assert(number_free(entries[1].1));
}

/// Each entry after `upsert` is the new one or an entry that was there.
proof fn lemma_upsert_entry_origin(entries: Seq<(Seq<char>, JsonView)>, key: Seq<char>, value: JsonView, i: int) -> (j: int)
    requires
        0 <= i < upsert(entries, key, value).len(),
    ensures
        j == -1 ==> upsert(entries, key, value)[i].1 == value,
        j != -1 ==> 0 <= j < entries.len() && entries[j].1 == upsert(entries, key, value)[i].1,
{
    if has_key(entries, key) {
        let p = key_position(entries, key);
        assert(is_first_key(entries, key, p));
        if i == p {
            -1
        } else {
            i
        }
    } else {
        if i == entries.len() {
            -1
        } else {
            i
        }
    }
}

/// An update keeps unique keys everywhere, keeps a document free of numbers,
/// and adds no nesting beyond two levels.
pub proof fn lemma_update_preserves(doc: JsonView, section: Seq<char>, id: Seq<char>, depth: nat)
    requires
        can_hold_sections(doc),
        section_set_to_all(doc, section, id) is Some,
        depth >= 2,
    ensures
        keys_distinct_everywhere(doc) ==> keys_distinct_everywhere(section_set_to_all(doc, section, id).unwrap()),
        number_free(doc) ==> number_free(section_set_to_all(doc, section, id).unwrap()),
        nesting_at_most(doc, depth) ==> nesting_at_most(section_set_to_all(doc, section, id).unwrap(), depth),
{
    let entries = top_entries(doc);
    let inner = section_entries(doc, section);
    let new_inner = upsert(inner, id, all_view());
    let new_section = JsonView::Object(new_inner);
    let after_entries = upsert(entries, section, new_section);
    let after = JsonView::Object(after_entries);
    assert(section_set_to_all(doc, section, id).unwrap() == after);
    lemma_upsert(inner, id, all_view());
    lemma_upsert(entries, section, new_section);
    // the section that was there, if any, is one of the entries
    let p = key_position(entries, section);
    if has_key(entries, section) {
        assert(is_first_key(entries, section, p));
    }
    if keys_distinct_everywhere(doc) {
        if has_key(entries, section) {
            assert(keys_distinct_everywhere(entries[p].1));
        }
        assert forall|i: int| 0 <= i < new_inner.len() implies keys_distinct_everywhere(#[trigger] new_inner[i].1) by {
            let j = lemma_upsert_entry_origin(inner, id, all_view(), i);
        }
        assert forall|i: int| 0 <= i < after_entries.len() implies keys_distinct_everywhere(
            #[trigger] after_entries[i].1,
        ) by {
            let j = lemma_upsert_entry_origin(entries, section, new_section, i);
        }
    }
    if number_free(doc) {
        if has_key(entries, section) {
            assert(number_free(entries[p].1));
        }
        assert forall|i: int| 0 <= i < new_inner.len() implies number_free(#[trigger] new_inner[i].1) by {
            let j = lemma_upsert_entry_origin(inner, id, all_view(), i);
        }
        assert forall|i: int| 0 <= i < after_entries.len() implies number_free(#[trigger] after_entries[i].1) by {
            let j = lemma_upsert_entry_origin(entries, section, new_section, i);
        }
    }
    if nesting_at_most(doc, depth) {
        if has_key(entries, section) {
            assert(nesting_at_most(entries[p].1, (depth - 1) as nat));
        }
        assert forall|i: int| 0 <= i < new_inner.len() implies nesting_at_most(
            #[trigger] new_inner[i].1,
            (depth - 2) as nat,
        ) by {
            let j = lemma_upsert_entry_origin(inner, id, all_view(), i);
        }
        assert(nesting_at_most(new_section, (depth - 1) as nat));
        assert forall|i: int| 0 <= i < after_entries.len() implies nesting_at_most(
            #[trigger] after_entries[i].1,
            (depth - 1) as nat,
        ) by {
            let j = lemma_upsert_entry_origin(entries, section, new_section, i);
        }
    }
}

/// An update of a document that reads back gives a document that reads back.
pub proof fn lemma_update_reads_back(doc: JsonView, section: Seq<char>, id: Seq<char>)
    requires
        can_hold_sections(doc),
        keys_distinct_everywhere(doc),
        nesting_at_most(doc, max_read_nesting()),
        number_free(doc),
        section_set_to_all(doc, section, id) is Some,
    ensures
        reads_back(section_set_to_all(doc, section, id).unwrap()),
{
    lemma_update_preserves(doc, section, id, max_read_nesting());
}

/// Saving the text of an update, then updating the saved text for the same
/// section and id, saves the same text again: marking twice is marking once.
/// The second condition is what `server_settings_text` and
/// `channel_settings_text` ensure where the stored document holds no number.
pub proof fn lemma_text_update_idempotent(stored: Option<Seq<char>>, section: Seq<char>, id: Seq<char>, saved: Seq<char>)
    requires
        updated_text(stored, section, id) == Ok::<Seq<char>, ApiError>(saved),
        json_parsed(saved) == section_set_to_all(parsed_or_default(stored), section, id),
    ensures
        updated_text(Some(saved), section, id) == Ok::<Seq<char>, ApiError>(saved),
{
    let doc = parsed_or_default(stored);
    lemma_section_update_idempotent(doc, section, id);
}

/// After the server's text update and then the channel's on the saved text,
/// the text saved last reads back with the server and the channel both "all".
pub proof fn lemma_channel_update_keeps_server(
    stored: Option<Seq<char>>,
    server_id: Seq<char>,
    channel_id: Seq<char>,
    saved1: Seq<char>,
    saved2: Seq<char>,
)
    requires
        updated_text(stored, "server"@, server_id) == Ok::<Seq<char>, ApiError>(saved1),
        json_parsed(saved1) == section_set_to_all(parsed_or_default(stored), "server"@, server_id),
        updated_text(Some(saved1), "channel"@, channel_id) == Ok::<Seq<char>, ApiError>(saved2),
        json_parsed(saved2) == section_set_to_all(parsed_or_default(Some(saved1)), "channel"@, channel_id),
    ensures
        json_parsed(saved2) matches Some(doc) && lookup(top_entries(doc), "server"@) matches Some(
            JsonView::Object(servers),
        ) && lookup(servers, server_id) == Some(all_view()),
        json_parsed(saved2) matches Some(doc) && lookup(top_entries(doc), "channel"@) matches Some(
            JsonView::Object(channels),
        ) && lookup(channels, channel_id) == Some(all_view()),
{
    reveal_strlit("server");
    reveal_strlit("channel");
    assert("server"@[0] != "channel"@[0]);
    let doc0 = parsed_or_default(stored);
    lemma_section_update(doc0, "server"@, server_id);
    let doc1 = section_set_to_all(doc0, "server"@, server_id).unwrap();
    assert(parsed_or_default(Some(saved1)) == doc1);
    lemma_section_update(doc1, "channel"@, channel_id);
}

/// Reads a user's stored notification settings text, marks the server as
/// "all", and gives the text to save. Nothing stored, or text that does not
/// parse, starts from the default document.
pub fn server_settings_text(stored: Option<&str>, server_id: &str) -> (r: Result<String, ApiError>)
    requires
        text_can_be_updated(stored_view(stored)),
    ensures
        match updated_text(stored_view(stored), "server"@, server_id@) {
            Ok(t) => r matches Ok(s) && s@ == t,
            Err(e) => r == Err::<String, ApiError>(e),
        },
        saved_text_reads_back(stored_view(stored), "server"@, server_id@, r),
{
    section_settings_text(stored, "server", server_id)
}

/// Reads a user's stored notification settings text, marks the channel as
/// "all", and gives the text to save.
pub fn channel_settings_text(stored: Option<&str>, channel_id: &str) -> (r: Result<String, ApiError>)
    requires
        text_can_be_updated(stored_view(stored)),
    ensures
        match updated_text(stored_view(stored), "channel"@, channel_id@) {
            Ok(t) => r matches Ok(s) && s@ == t,
            Err(e) => r == Err::<String, ApiError>(e),
        },
        saved_text_reads_back(stored_view(stored), "channel"@, channel_id@, r),
{
    section_settings_text(stored, "channel", channel_id)
}

fn updatable(doc: &Option<JsonValue>) -> (ok: bool)
    ensures
        ok == (doc matches Some(d) ==> can_hold_sections(d@)),
{
    match doc {
        Some(JsonValue::Null) => true,
        Some(JsonValue::Object(_)) => true,
        Some(_) => false,
        None => true,
    }
}

/// `server_settings_text` for any stored text: `None` exactly when the text
/// parses to a document that is neither an object nor `null`, which the
/// update cannot take.
pub fn checked_server_settings_text(stored: Option<&str>, server_id: &str) -> (r: Option<
    Result<String, ApiError>,
>)
    ensures
        r is None <==> !text_can_be_updated(stored_view(stored)),
        r matches Some(res) ==> match updated_text(stored_view(stored), "server"@, server_id@) {
            Ok(t) => res matches Ok(s) && s@ == t,
            Err(e) => res == Err::<String, ApiError>(e),
        },
{
    let doc = parse_stored(stored);
    if updatable(&doc) {
        Some(server_settings_text(stored, server_id))
    } else {
        None
    }
}

/// `channel_settings_text` for any stored text: `None` exactly when the text
/// parses to a document that is neither an object nor `null`.
pub fn checked_channel_settings_text(stored: Option<&str>, channel_id: &str) -> (r: Option<
    Result<String, ApiError>,
>)
    ensures
        r is None <==> !text_can_be_updated(stored_view(stored)),
        r matches Some(res) ==> match updated_text(stored_view(stored), "channel"@, channel_id@) {
            Ok(t) => res matches Ok(s) && s@ == t,
            Err(e) => res == Err::<String, ApiError>(e),
        },
{
    let doc = parse_stored(stored);
    if updatable(&doc) {
        Some(channel_settings_text(stored, channel_id))
    } else {
        None
    }
}

/// The entries that mark each of `ids` with `value`, in first-seen order; an
/// id listed twice is marked once.
pub open spec fn marked_entries(ids: Seq<Seq<char>>, value: JsonView) -> Seq<(Seq<char>, JsonView)>
    decreases ids.len(),
{
    if ids.len() == 0 {
        seq![]
    } else {
        upsert(marked_entries(ids.drop_last(), value), ids.last(), value)
    }
}

/// `{"server": {id: mode, ..}, "channel": {id: mode, ..}}` for the given ids.
pub open spec fn preferences_view(server_ids: Seq<Seq<char>>, channel_ids: Seq<Seq<char>>, mode: NotificationMode) -> JsonView {
    let value = JsonView::Str(mode_text_view(mode));
    JsonView::Object(
        seq![
            ("server"@, JsonView::Object(marked_entries(server_ids, value))),
            ("channel"@, JsonView::Object(marked_entries(channel_ids, value))),
        ],
    )
}

fn marked_object(ids: &Vec<String>, text: &String) -> (entries: Vec<(String, JsonValue)>)
    ensures
        entries_view(entries@) == marked_entries(texts(ids@), JsonView::Str(text@)),
{
    let ghost value = JsonView::Str(text@);
    let mut entries: Vec<(String, JsonValue)> = Vec::new();
    proof {
        lemma_entries_view(entries@);
        assert(entries_view(entries@) =~= marked_entries(texts(ids@).take(0), value));
    }
    let n = ids.len();
    let mut i: usize = 0;
    while i < n
        invariant
            n == ids@.len(),
            i <= n,
            value == JsonView::Str(text@),
            entries_view(entries@) == marked_entries(texts(ids@).take(i as int), value),
        decreases n - i,
    {
        let item = JsonValue::Str(text.clone());
        let key = ids[i].clone();
        assert(item@ == value);
        assert(key@ == texts(ids@)[i as int]);
        object_insert(&mut entries, key, item);
        proof {
            let next = texts(ids@).take(i + 1);
            assert(next.drop_last() =~= texts(ids@).take(i as int));
            assert(next.last() == key@);
            assert(marked_entries(next, value) == upsert(marked_entries(next.drop_last(), value), next.last(), value));
        }
        i = i + 1;
    }
    assert(texts(ids@).take(n as int) =~= texts(ids@));
    entries
}

/// Builds the notification preferences that set every listed server and
/// channel to `mode`.
pub fn notification_preferences(server_ids: &Vec<String>, channel_ids: &Vec<String>, mode: NotificationMode) -> (doc: JsonValue)
    ensures
        doc@ == preferences_view(texts(server_ids@), texts(channel_ids@), mode),
{
    let text = mode_text(mode);
    let servers = marked_object(server_ids, &text);
    let channels = marked_object(channel_ids, &text);
    let mut entries: Vec<(String, JsonValue)> = Vec::new();
    entries.push((String::from_str("server"), JsonValue::Object(servers)));
    entries.push((String::from_str("channel"), JsonValue::Object(channels)));
    proof {
        reveal_strlit("server");
        reveal_strlit("channel");
        lemma_entries_view(entries@);
        assert(entries_view(entries@) =~= top_entries(
            preferences_view(texts(server_ids@), texts(channel_ids@), mode),
        ));
    }
    JsonValue::Object(entries)
}

/// The user-settings entry that stores updated notification settings: the
/// key `"notifications"` with the time of the change and the text.
pub fn notifications_setting(timestamp: i64, text: String) -> (entry: (String, (i64, String)))
    ensures
        entry.0@ == "notifications"@,
        entry.1.0 == timestamp,
        entry.1.1 == text,
{
    (String::from_str("notifications"), (timestamp, text))
}

/// The text of the notification preferences that set every listed server
/// and channel to `mode`.
pub fn preferences_text(server_ids: &Vec<String>, channel_ids: &Vec<String>, mode: NotificationMode) -> (r: Result<String, ApiError>)
    ensures
        r matches Ok(s) && s@ == json_written(preferences_view(texts(server_ids@), texts(channel_ids@), mode)),
{
    let doc = notification_preferences(server_ids, channel_ids, mode);
    match write_json(&doc) {
        Some(text) => Ok(text),
        None => Err(ApiError::InternalError),
    }
}

/// The user-settings entry that stores the preferences: the key
/// `"notification_preferences"` with the time of the change and the text.
pub fn notification_preferences_setting(
    server_ids: &Vec<String>,
    channel_ids: &Vec<String>,
    mode: NotificationMode,
    timestamp: i64,
) -> (r: Result<(String, (i64, String)), ApiError>)
    ensures
        r matches Ok(entry) && entry.0@ == "notification_preferences"@ && entry.1.0 == timestamp
            && entry.1.1@ == json_written(preferences_view(texts(server_ids@), texts(channel_ids@), mode)),
{
    let text = preferences_text(server_ids, channel_ids, mode)?;
    Ok((String::from_str("notification_preferences"), (timestamp, text)))
}

/// Each id is marked with the value exactly when it is listed; the keys of the
/// marked entries are distinct.
pub proof fn lemma_marked_entries(ids: Seq<Seq<char>>, value: JsonView)
    ensures
        entries_distinct(marked_entries(ids, value)),
        forall|id: Seq<char>|
            #[trigger] lookup(marked_entries(ids, value), id) == if ids.contains(id) {
                Some(value)
            } else {
                None
            },
    decreases ids.len(),
{
    if ids.len() > 0 {
        let rest = ids.drop_last();
        lemma_marked_entries(rest, value);
        lemma_upsert(marked_entries(rest, value), ids.last(), value);
        assert forall|id: Seq<char>|
            #[trigger] lookup(marked_entries(ids, value), id) == if ids.contains(id) {
                Some(value)
            } else {
                None
            } by {
            if id == ids.last() {
                assert(ids.contains(id)) by {
                    assert(ids[ids.len() - 1] == id);
                }
            } else {
                assert(ids.contains(id) == rest.contains(id)) by {
                    if ids.contains(id) {
                        let k = choose|k: int| 0 <= k < ids.len() && ids[k] == id;
                        assert(rest[k] == id);
                    }
                    if rest.contains(id) {
                        let k = choose|k: int| 0 <= k < rest.len() && rest[k] == id;
                        assert(ids[k] == id);
                    }
                }
            }
        }
    } else {
        assert(marked_entries(ids, value) =~= Seq::<(Seq<char>, JsonView)>::empty());
        assert forall|id: Seq<char>| #[trigger] lookup(marked_entries(ids, value), id) == None::<JsonView> by {
            if has_key(marked_entries(ids, value), id) {
                let p = key_position(marked_entries(ids, value), id);
                assert(is_first_key(marked_entries(ids, value), id, p));
            }
        }
    }
}

/// Every listed server and channel is set to the mode, and nothing else is set.
pub proof fn lemma_preferences_cover_listed_ids(server_ids: Seq<Seq<char>>, channel_ids: Seq<Seq<char>>, mode: NotificationMode, id: Seq<char>)
    ensures
        lookup(marked_entries(server_ids, JsonView::Str(mode_text_view(mode))), id) == if server_ids.contains(id) {
            Some(JsonView::Str(mode_text_view(mode)))
        } else {
            None
        },
        lookup(marked_entries(channel_ids, JsonView::Str(mode_text_view(mode))), id) == if channel_ids.contains(id) {
            Some(JsonView::Str(mode_text_view(mode)))
        } else {
            None
        },
{
    lemma_marked_entries(server_ids, JsonView::Str(mode_text_view(mode)));
    lemma_marked_entries(channel_ids, JsonView::Str(mode_text_view(mode)));
}

/// The bulk preferences hold exactly two sections, "server" and "channel";
/// in each, every listed id holds the text of the requested mode ("all" for
/// `All`, "mention" for `Mute`), the same under servers as under channels,
/// and no other id is set.
pub proof fn lemma_preferences_set_listed_ids_to_mode(
    server_ids: Seq<Seq<char>>,
    channel_ids: Seq<Seq<char>>,
    mode: NotificationMode,
    id: Seq<char>,
)
    ensures
        ({
            let mode_value = JsonView::Str(
                match mode {
                    NotificationMode::All => "all"@,
                    NotificationMode::Mute => "mention"@,
                },
            );
            let sections = top_entries(preferences_view(server_ids, channel_ids, mode));
            &&& sections.len() == 2
            &&& lookup(sections, "server"@) matches Some(JsonView::Object(servers)) && lookup(servers, id) == (
            if server_ids.contains(id) {
                Some(mode_value)
            } else {
                None
            })
            &&& lookup(sections, "channel"@) matches Some(JsonView::Object(channels)) && lookup(channels, id)
                == (if channel_ids.contains(id) {
                Some(mode_value)
            } else {
                None
            })
        }),
{
    reveal_strlit("server");
    reveal_strlit("channel");
    reveal_strlit("all");
    reveal_strlit("mention");
    assert("server"@[0] != "channel"@[0]);
    let value = JsonView::Str(mode_text_view(mode));
    let sections = top_entries(preferences_view(server_ids, channel_ids, mode));
    assert(is_first_key(sections, "server"@, 0));
    lemma_first_key_unique(sections, "server"@, 0);
    assert(is_first_key(sections, "channel"@, 1));
    lemma_first_key_unique(sections, "channel"@, 1);
    lemma_marked_entries(server_ids, value);
    lemma_marked_entries(channel_ids, value);
}

/// The object that a section holds before an update, or none.
pub open spec fn section_entries(doc: JsonView, section: Seq<char>) -> Seq<(Seq<char>, JsonView)> {
    match lookup(top_entries(doc), section) {
        Some(JsonView::Object(inner)) => inner,
        _ => seq![],
    }
}

/// An update fails exactly when the section is present and is not an object.
pub proof fn lemma_section_update_fails_iff(doc: JsonView, section: Seq<char>, id: Seq<char>)
    ensures
        section_set_to_all(doc, section, id) is None <==> (lookup(top_entries(doc), section) matches Some(v)
            && !(v is Object)),
{
}

/// After a successful update the section is an object in which `id` is "all";
/// every other section, and every other id of the section, holds what it held.
pub proof fn lemma_section_update(doc: JsonView, section: Seq<char>, id: Seq<char>)
    requires
        section_set_to_all(doc, section, id) is Some,
    ensures
        ({
            let after = section_set_to_all(doc, section, id).unwrap();
            &&& after is Object
            &&& lookup(top_entries(after), section) == Some(
                JsonView::Object(upsert(section_entries(doc, section), id, all_view())),
            )
            &&& lookup(upsert(section_entries(doc, section), id, all_view()), id) == Some(all_view())
            &&& forall|other: Seq<char>|
                other != section ==> #[trigger] lookup(top_entries(after), other) == lookup(
                    top_entries(doc),
                    other,
                )
            &&& forall|other_id: Seq<char>|
                other_id != id ==> #[trigger] lookup(
                    upsert(section_entries(doc, section), id, all_view()),
                    other_id,
                ) == lookup(section_entries(doc, section), other_id)
        }),
{
    let entries = top_entries(doc);
    let inner = section_entries(doc, section);
    lemma_upsert(inner, id, all_view());
    lemma_upsert(entries, section, JsonView::Object(upsert(inner, id, all_view())));
}

/// Marking the same id twice gives the document that marking it once gave.
pub proof fn lemma_section_update_idempotent(doc: JsonView, section: Seq<char>, id: Seq<char>)
    requires
        section_set_to_all(doc, section, id) is Some,
    ensures
        section_set_to_all(section_set_to_all(doc, section, id).unwrap(), section, id)
            == section_set_to_all(doc, section, id),
{
    let entries = top_entries(doc);
    let inner = section_entries(doc, section);
    let new_inner = upsert(inner, id, all_view());
    let after = section_set_to_all(doc, section, id).unwrap();
    lemma_section_update(doc, section, id);
    lemma_upsert_same_value(new_inner, id, all_view());
    assert(top_entries(after) == upsert(entries, section, JsonView::Object(new_inner)));
    lemma_upsert_same_value(top_entries(after), section, JsonView::Object(new_inner));
}

/// An update keeps keys unique, at the top level and inside the section.
pub proof fn lemma_section_update_keeps_keys_distinct(doc: JsonView, section: Seq<char>, id: Seq<char>)
    requires
        section_set_to_all(doc, section, id) is Some,
        entries_distinct(top_entries(doc)),
        entries_distinct(section_entries(doc, section)),
    ensures
        entries_distinct(top_entries(section_set_to_all(doc, section, id).unwrap())),
        entries_distinct(upsert(section_entries(doc, section), id, all_view())),
{
    let entries = top_entries(doc);
    let inner = section_entries(doc, section);
    lemma_upsert(inner, id, all_view());
    lemma_upsert(entries, section, JsonView::Object(upsert(inner, id, all_view())));
}

/// Starting from the default document, marking a server or a channel never fails.
pub proof fn lemma_default_document_accepts_updates(id: Seq<char>)
    ensures
        section_set_to_all(default_notifications_view(), "server"@, id) is Some,
        section_set_to_all(default_notifications_view(), "channel"@, id) is Some,
{
    reveal_strlit("server");
    reveal_strlit("channel");
    let entries = top_entries(default_notifications_view());
    assert(is_first_key(entries, "server"@, 0));
    lemma_first_key_unique(entries, "server"@, 0);
    assert("server"@ != "channel"@) by {
        assert("server"@[0] != "channel"@[0]);
    }
    assert(is_first_key(entries, "channel"@, 1));
    lemma_first_key_unique(entries, "channel"@, 1);
}

} // verus!
