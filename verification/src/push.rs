use vstd::prelude::*;

verus! {

/// A Web Push subscription of a session.
#[derive(Debug, PartialEq, Eq)]
pub struct PushSubscription {
    pub endpoint: String,
    pub p256dh: String,
    pub auth: String,
}

/// What a push subscription needs of a session: its id and its subscription.
#[derive(Debug, PartialEq, Eq)]
pub struct SessionRecord {
    pub id: String,
    pub subscription: Option<PushSubscription>,
}

/// What to do with a new subscription.
#[derive(Debug, PartialEq, Eq)]
pub enum SubscribeOutcome {
    /// Another session of the user already holds this APN token: succeed
    /// without storing anything.
    AlreadyRegistered,
    /// Store this subscription on the current session (replacing any other).
    Save(PushSubscription),
}

/// The session is another one of the user's, subscribed through APN with the
/// same token.
pub open spec fn holds_apn_token(session: SessionRecord, current_session: Seq<char>, auth: Seq<char>) -> bool {
    &&& session.subscription matches Some(sub)
    &&& sub.endpoint@ == "apn"@
    &&& sub.auth@ == auth
    &&& session.id@ != current_session
}

/// Some session in the list holds the APN token.
pub open spec fn some_session_holds_apn_token(sessions: Seq<SessionRecord>, current_session: Seq<char>, auth: Seq<char>) -> bool {
    exists|i: int| 0 <= i < sessions.len() && holds_apn_token(#[trigger] sessions[i], current_session, auth)
}

/// Any session of the list, at any place, that is another session subscribed
/// through the "apn" endpoint with the same token makes the token already
/// held; and the token is held only through such a session.
pub proof fn lemma_any_apn_holder_counts(sessions: Seq<SessionRecord>, current_session: Seq<char>, auth: Seq<char>)
    ensures
        forall|i: int|
            0 <= i < sessions.len() && (#[trigger] sessions[i]).subscription is Some
                && sessions[i].subscription.unwrap().endpoint@ == "apn"@
                && sessions[i].subscription.unwrap().auth@ == auth && sessions[i].id@ != current_session
                ==> some_session_holds_apn_token(sessions, current_session, auth),
        some_session_holds_apn_token(sessions, current_session, auth) ==> exists|i: int|
            0 <= i < sessions.len() && (#[trigger] sessions[i]).subscription is Some
                && sessions[i].subscription.unwrap().endpoint@ == "apn"@
                && sessions[i].subscription.unwrap().auth@ == auth && sessions[i].id@ != current_session,
{
    assert forall|i: int|
        0 <= i < sessions.len() && (#[trigger] sessions[i]).subscription is Some
            && sessions[i].subscription.unwrap().endpoint@ == "apn"@
            && sessions[i].subscription.unwrap().auth@ == auth && sessions[i].id@ != current_session
            implies some_session_holds_apn_token(sessions, current_session, auth) by {
        assert(holds_apn_token(sessions[i], current_session, auth));
    }
    if some_session_holds_apn_token(sessions, current_session, auth) {
        let i = choose|i: int| 0 <= i < sessions.len() && holds_apn_token(#[trigger] sessions[i], current_session, auth);
        assert(sessions[i].subscription is Some);
    }
}

/// Decides a push subscription. `sessions` are the user's sessions when they
/// could be fetched. A token that another session already holds through APN is
/// not stored twice; otherwise the new subscription is saved.
pub fn subscribe(sessions: Option<Vec<SessionRecord>>, current_session: &String, data: PushSubscription) -> (outcome: SubscribeOutcome)
    ensures
        (outcome is AlreadyRegistered) <==> match sessions {
            Some(list) => some_session_holds_apn_token(list@, current_session@, data.auth@),
            None => false,
        },
        outcome matches SubscribeOutcome::Save(sub) ==> sub == data,
{
    match &sessions {
        Some(list) => {
            let apn = String::from_str("apn");
            let n = list.len();
            let mut i: usize = 0;
            while i < n
                invariant
                    n == list@.len(),
                    i <= n,
                    sessions == Some(*list),
                    apn@ == "apn"@,
                    forall|j: int| 0 <= j < i ==> !holds_apn_token(#[trigger] list@[j], current_session@, data.auth@),
                decreases n - i,
            {
                match &list[i].subscription {
                    Some(sub) => {
                        if sub.endpoint == apn && sub.auth == data.auth && list[i].id != *current_session {
                            assert(holds_apn_token(list@[i as int], current_session@, data.auth@));
                            assert(some_session_holds_apn_token(list@, current_session@, data.auth@));
                            return SubscribeOutcome::AlreadyRegistered;
                        }
                    },
                    None => {},
                }
                i = i + 1;
            }
            SubscribeOutcome::Save(data)
        },
        None => SubscribeOutcome::Save(data),
    }
}

} // verus!
