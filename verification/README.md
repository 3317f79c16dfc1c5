# notification_settings

Notification-settings logic for a chat server, verified with Verus.

- `src/json.rs`: a JSON document model (`JsonValue`) with its mathematical view,
  and object lookup/insert with map semantics.
- `src/notifications.rs`: marking a server or channel as "all" in a user's stored
  settings (from the stored text to the text to save, parsed and written by
  `serde_json`), and building the bulk "server/channel → mode" preferences.
- `src/tasks.rs`: notification modes, queued-job answers and job-status checks
  (job ids are UUIDs, issued and parsed by the `uuid` crate).
- `src/push.rs`, `src/invites.rs`: the decisions of a push subscription and of
  joining an invite.
- `src/members.rs`, `src/stats.rs`, `src/batching.rs`, `src/text.rs`: the bulk
  update runner's state: server/channel id collection, run statistics, batching
  of users, and log text.
- `app/main.rs`: the bulk update program (MongoDB, progress bar, log files,
  signal handling) around the library.
