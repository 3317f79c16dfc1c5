use vstd::prelude::*;
use crate::text::texts;

verus! {

/// What a server-membership record says about its server: the `server`
/// field of its `_id` object, and its own top-level `server` field, each when
/// it is a string.
#[derive(Debug, PartialEq, Eq)]
pub struct MemberRecord {
    pub id_server: Option<String>,
    pub server: Option<String>,
}

/// The server a membership record names: the one inside `_id` first, the
/// top-level one otherwise; a record that could not be read names none.
pub open spec fn member_server(record: Option<MemberRecord>) -> Option<Seq<char>> {
    match record {
        Some(m) => match m.id_server {
            Some(s) => Some(s@),
            None => match m.server {
                Some(s) => Some(s@),
                None => None,
            },
        },
        None => None,
    }
}

/// The text of an id that may be missing.
pub open spec fn found_text(found: Option<String>) -> Option<Seq<char>> {
    match found {
        Some(s) => Some(s@),
        None => None,
    }
}

/// The ids that are present, each once, in the order they are first seen.
pub open spec fn distinct_present(found: Seq<Option<Seq<char>>>) -> Seq<Seq<char>>
    decreases found.len(),
{
    if found.len() == 0 {
        seq![]
    } else {
        let acc = distinct_present(found.drop_last());
        match found.last() {
            Some(id) => if acc.contains(id) {
                acc
            } else {
                acc.push(id)
            },
            None => acc,
        }
    }
}

fn contains_text(ids: &Vec<String>, id: &String) -> (found: bool)
    ensures
        found == texts(ids@).contains(id@),
{
    let n = ids.len();
    let mut i: usize = 0;
    while i < n
        invariant
            n == ids@.len(),
            i <= n,
            forall|j: int| 0 <= j < i ==> ids@[j]@ != id@,
        decreases n - i,
    {
        if ids[i] == *id {
            assert(texts(ids@)[i as int] == id@);
            return true;
        }
        i = i + 1;
    }
    proof {
        if texts(ids@).contains(id@) {
            let k = choose|k: int| 0 <= k < texts(ids@).len() && texts(ids@)[k] == id@;
            assert(ids@[k]@ == id@);
        }
    }
    false
}

fn add_distinct(ids: &mut Vec<String>, id: String)
    ensures
        texts(final(ids)@) == if texts(old(ids)@).contains(id@) {
            texts(old(ids)@)
        } else {
            texts(old(ids)@).push(id@)
        },
{
    if !contains_text(ids, &id) {
        let ghost before = ids@;
        ids.push(id);
        assert(texts(ids@) =~= texts(before).push(id@));
    }
}

/// The server of a membership record, as `member_server` describes it.
pub fn member_server_id(record: &MemberRecord) -> (server: Option<String>)
    ensures
        found_text(server) == member_server(Some(*record)),
{
    match &record.id_server {
        Some(s) => Some(s.clone()),
        None => match &record.server {
            Some(s) => Some(s.clone()),
            None => None,
        },
    }
}

/// The servers of a user's membership records, each once, in first-seen order;
/// records that could not be read, or that name no server, are skipped.
pub fn membership_server_ids(records: &Vec<Option<MemberRecord>>) -> (ids: Vec<String>)
    ensures
        texts(ids@) == distinct_present(records@.map_values(|r: Option<MemberRecord>| member_server(r))),
{
    let ghost found = records@.map_values(|r: Option<MemberRecord>| member_server(r));
    let mut ids: Vec<String> = Vec::new();
    let n = records.len();
    let mut i: usize = 0;
    assert(texts(ids@) =~= distinct_present(found.take(0)));
    while i < n
        invariant
            n == records@.len(),
            i <= n,
            found == records@.map_values(|r: Option<MemberRecord>| member_server(r)),
            texts(ids@) == distinct_present(found.take(i as int)),
        decreases n - i,
    {
        let ghost next = found.take(i + 1);
        assert(next.drop_last() =~= found.take(i as int));
        assert(next.last() == member_server(records@[i as int]));
        match &records[i] {
            Some(record) => {
                match member_server_id(record) {
                    Some(id) => add_distinct(&mut ids, id),
                    None => {},
                }
            },
            None => {},
        }
        i = i + 1;
    }
    assert(found.take(n as int) =~= found);
    ids
}

/// The ids that were found, each once, in first-seen order; missing ones
/// (unreadable records, or ids that are not strings) are skipped.
pub fn found_ids(found: &Vec<Option<String>>) -> (ids: Vec<String>)
    ensures
        texts(ids@) == distinct_present(found@.map_values(|f: Option<String>| found_text(f))),
{
    let ghost texts_found = found@.map_values(|f: Option<String>| found_text(f));
    let mut ids: Vec<String> = Vec::new();
    let n = found.len();
    let mut i: usize = 0;
    assert(texts(ids@) =~= distinct_present(texts_found.take(0)));
    while i < n
        invariant
            n == found@.len(),
            i <= n,
            texts_found == found@.map_values(|f: Option<String>| found_text(f)),
            texts(ids@) == distinct_present(texts_found.take(i as int)),
        decreases n - i,
    {
        let ghost next = texts_found.take(i + 1);
        assert(next.drop_last() =~= texts_found.take(i as int));
        assert(next.last() == found_text(found@[i as int]));
        match &found[i] {
            Some(id) => add_distinct(&mut ids, id.clone()),
            None => {},
        }
        i = i + 1;
    }
    assert(texts_found.take(n as int) =~= texts_found);
    ids
}

/// The collected ids are distinct, and an id is collected exactly when some
/// record names it.
pub proof fn lemma_distinct_present(found: Seq<Option<Seq<char>>>)
    ensures
        distinct_present(found).no_duplicates(),
        forall|id: Seq<char>|
            #[trigger] distinct_present(found).contains(id) <==> found.contains(Some(id)),
    decreases found.len(),
{
    if found.len() > 0 {
        let rest = found.drop_last();
        lemma_distinct_present(rest);
        let acc = distinct_present(rest);
        let last = found[found.len() - 1];
        assert(found.last() == last);
        assert forall|id: Seq<char>|
            #[trigger] distinct_present(found).contains(id) <==> found.contains(Some(id)) by {
            assert(found.contains(Some(id)) <==> (rest.contains(Some(id)) || last == Some(id))) by {
                if found.contains(Some(id)) {
                    let k = choose|k: int| 0 <= k < found.len() && found[k] == Some(id);
                    if k < found.len() - 1 {
                        assert(rest[k] == Some(id));
                    }
                }
                if rest.contains(Some(id)) {
                    let k = choose|k: int| 0 <= k < rest.len() && rest[k] == Some(id);
                    assert(found[k] == Some(id));
                }
                if last == Some(id) {
                    assert(found[found.len() - 1] == Some(id));
                }
            }
            match last {
                Some(x) => {
                    if !acc.contains(x) {
                        assert(acc.push(x).contains(id) <==> (acc.contains(id) || x == id)) by {
                            if acc.push(x).contains(id) {
                                let k = choose|k: int| 0 <= k < acc.push(x).len() && acc.push(x)[k] == id;
                                if k < acc.len() {
                                    assert(acc[k] == id);
                                }
                            }
                            if acc.contains(id) {
                                let k = choose|k: int| 0 <= k < acc.len() && acc[k] == id;
                                assert(acc.push(x)[k] == id);
                            }
                            if x == id {
                                assert(acc.push(x)[acc.len() as int] == id);
                            }
                        }
                    }
                },
                None => {},
            }
        }
        match last {
            Some(x) => {
                if !acc.contains(x) {
                    assert forall|a: int, b: int|
                        0 <= a < acc.push(x).len() && 0 <= b < acc.push(x).len() && a != b implies acc.push(x)[a]
                        != acc.push(x)[b] by {
                        if b == acc.len() {
                            assert(acc[a] != x);
                        } else if a == acc.len() {
                            assert(acc[b] != x);
                        }
                    }
                }
            },
            None => {},
        }
    } else {
        assert forall|id: Seq<char>|
            #[trigger] distinct_present(found).contains(id) <==> found.contains(Some(id)) by {
            assert(distinct_present(found) =~= Seq::<Seq<char>>::empty());
        }
    }
}

} // verus!
