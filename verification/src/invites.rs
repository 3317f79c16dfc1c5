use vstd::prelude::*;
use crate::error::ApiError;
use crate::text::texts;

verus! {

/// What joining an invite led to.
#[derive(Debug, PartialEq, Eq)]
pub enum JoinedInvite {
    /// The user joined a server, and with it these channels.
    Server { server_id: String, channel_ids: Vec<String> },
    /// The user joined a group channel.
    Group { channel_id: String },
}

/// A notification setting to mark as "all".
#[derive(Debug, PartialEq, Eq)]
pub enum NotificationTarget {
    Server(String),
    Channel(String),
}

/// A notification target, by its id's text.
pub enum TargetView {
    Server(Seq<char>),
    Channel(Seq<char>),
}

pub open spec fn target_view(t: NotificationTarget) -> TargetView {
    match t {
        NotificationTarget::Server(id) => TargetView::Server(id@),
        NotificationTarget::Channel(id) => TargetView::Channel(id@),
    }
}

pub open spec fn targets_view(ts: Seq<NotificationTarget>) -> Seq<TargetView> {
    ts.map_values(|t: NotificationTarget| target_view(t))
}

/// The settings that joining marks as "all": the server and then each of its
/// channels in order, or the group channel.
pub open spec fn join_targets(joined: JoinedInvite) -> Seq<TargetView> {
    match joined {
        JoinedInvite::Server { server_id, channel_ids } => seq![TargetView::Server(server_id@)]
            + texts(channel_ids@).map_values(|c: Seq<char>| TargetView::Channel(c)),
        JoinedInvite::Group { channel_id } => seq![TargetView::Channel(channel_id@)],
    }
}

/// Joining a server marks the server first and then every one of its
/// channels, each once, in order; joining a group marks its channel only.
pub proof fn lemma_join_marks_server_and_every_channel(joined: JoinedInvite)
    ensures
        match joined {
            JoinedInvite::Server { server_id, channel_ids } => {
                &&& join_targets(joined).len() == 1 + channel_ids@.len()
                &&& join_targets(joined)[0] == TargetView::Server(server_id@)
                &&& forall|i: int|
                    0 <= i < channel_ids@.len() ==> join_targets(joined)[i + 1] == TargetView::Channel(
                        (#[trigger] channel_ids@[i])@,
                    )
            },
            JoinedInvite::Group { channel_id } => join_targets(joined) == seq![TargetView::Channel(channel_id@)],
        },
{
}

/// Only users join invites: a bot is refused.
pub fn check_joining_user(is_bot: bool) -> (r: Result<(), ApiError>)
    ensures
        is_bot ==> r == Err::<(), ApiError>(ApiError::IsBot),
        !is_bot ==> r is Ok,
{
    if is_bot {
        Err(ApiError::IsBot)
    } else {
        Ok(())
    }
}

/// The notification settings to mark as "all" after a join, as `join_targets` says.
pub fn join_notification_targets(joined: &JoinedInvite) -> (targets: Vec<NotificationTarget>)
    ensures
        targets_view(targets@) == join_targets(*joined),
{
    match joined {
        JoinedInvite::Server { server_id, channel_ids } => {
            let mut targets: Vec<NotificationTarget> = Vec::new();
            targets.push(NotificationTarget::Server(server_id.clone()));
            let n = channel_ids.len();
            let mut i: usize = 0;
            while i < n
                invariant
                    n == channel_ids@.len(),
                    i <= n,
                    targets_view(targets@) == seq![TargetView::Server(server_id@)] + texts(
                        channel_ids@.take(i as int),
                    ).map_values(|c: Seq<char>| TargetView::Channel(c)),
                decreases n - i,
            {
                let ghost before = targets@;
                let ghost old_ids = texts(channel_ids@.take(i as int));
                targets.push(NotificationTarget::Channel(channel_ids[i].clone()));
                assert(texts(channel_ids@.take(i + 1)) =~= old_ids.push(channel_ids@[i as int]@));
                assert(targets_view(targets@) =~= targets_view(before).push(TargetView::Channel(channel_ids@[i as int]@)));
                assert(old_ids.push(channel_ids@[i as int]@).map_values(|c: Seq<char>| TargetView::Channel(c))
                    =~= old_ids.map_values(|c: Seq<char>| TargetView::Channel(c)).push(TargetView::Channel(channel_ids@[i as int]@)));
                assert(targets_view(targets@) =~= seq![TargetView::Server(server_id@)] + texts(
                    channel_ids@.take(i + 1),
                ).map_values(|c: Seq<char>| TargetView::Channel(c)));
                i = i + 1;
            }
            assert(channel_ids@.take(n as int) =~= channel_ids@);
            targets
        },
        JoinedInvite::Group { channel_id } => {
            let mut targets: Vec<NotificationTarget> = Vec::new();
            targets.push(NotificationTarget::Channel(channel_id.clone()));
            assert(targets_view(targets@) =~= seq![TargetView::Channel(channel_id@)]);
            targets
        },
    }
}

} // verus!
