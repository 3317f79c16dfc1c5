use vstd::prelude::*;
use crate::error::ApiError;

verus! {

/// Which messages of a channel or server notify the user.
#[derive(Debug, Clone, Copy, PartialEq, Eq, Structural)]
pub enum NotificationMode {
    /// All messages trigger notifications.
    All,
    /// Only mentions trigger notifications.
    Mute,
}

/// The text that the settings document stores for a mode.
pub open spec fn mode_text_view(mode: NotificationMode) -> Seq<char> {
    match mode {
        NotificationMode::All => "all"@,
        NotificationMode::Mute => "mention"@,
    }
}

/// The text that the settings document stores for a mode: `"all"`, or
/// `"mention"` for the mode in which only mentions notify.
pub fn mode_text(mode: NotificationMode) -> (text: String)
    ensures
        text@ == mode_text_view(mode),
{
    match mode {
        NotificationMode::All => String::from_str("all"),
        NotificationMode::Mute => String::from_str("mention"),
    }
}

/// A request to set every channel and server of a user to one mode.
#[derive(Debug, Clone, Copy, PartialEq, Eq, Structural)]
pub struct NotificationModeRequest {
    /// The mode to set (`"all"` or `"mute"` on the wire).
    pub mode_type: NotificationMode,
    /// Whether the client should skip its automatic resync.
    pub skip_resync: bool,
}

/// The answer that names a background job.
#[derive(Debug, PartialEq, Eq)]
pub struct TaskResponse {
    /// The job's id.
    pub task_id: String,
    /// A status message.
    pub message: String,
    /// Present (and `true`) only when the client asked to skip its resync.
    pub skip_resync: Option<bool>,
}

/// The message sent when a job has been queued.
pub open spec fn queued_message() -> Seq<char> {
    "Notification update job queued successfully. Changes will be applied in the background."@
}

/// The message sent when a job's status is asked for.
pub open spec fn processing_message() -> Seq<char> {
    "Task is being processed. Check your notification settings in a few minutes."@
}

/// An ASCII hexadecimal digit, in either case.
pub open spec fn is_hex_digit(c: char) -> bool {
    ||| ('0' as int <= c as int && c as int <= '9' as int)
    ||| ('a' as int <= c as int && c as int <= 'f' as int)
    ||| ('A' as int <= c as int && c as int <= 'F' as int)
}

/// 32 hexadecimal digits.
pub open spec fn is_simple_uuid(text: Seq<char>) -> bool {
    text.len() == 32 && forall|i: int| 0 <= i < 32 ==> is_hex_digit(#[trigger] text[i])
}

/// The places of the hyphens in the hyphenated form.
pub open spec fn is_hyphen_place(i: int) -> bool {
    i == 8 || i == 13 || i == 18 || i == 23
}

/// 36 characters: hexadecimal digits in groups of 8, 4, 4, 4 and 12, joined by hyphens.
pub open spec fn is_hyphenated_uuid(text: Seq<char>) -> bool {
    &&& text.len() == 36
    &&& forall|i: int|
        0 <= i < 36 ==> if is_hyphen_place(i) {
            #[trigger] text[i] == '-'
        } else {
            is_hex_digit(text[i])
        }
}

/// The hyphenated form in braces.
pub open spec fn is_braced_uuid(text: Seq<char>) -> bool {
    &&& text.len() == 38
    &&& text[0] == '{'
    &&& text[37] == '}'
    &&& is_hyphenated_uuid(text.subrange(1, 37))
}

/// The character is `lower`, or its upper-case form when `lower` is a letter.
pub open spec fn same_ignoring_ascii_case(c: char, lower: char) -> bool {
    c == lower || ('a' as int <= lower as int && lower as int <= 'z' as int && c as int == lower as int - 32)
}

/// The prefix of the URN form.
pub open spec fn urn_prefix() -> Seq<char> {
    seq!['u', 'r', 'n', ':', 'u', 'u', 'i', 'd', ':']
}

/// The hyphenated form after `urn:uuid:` (the prefix in any case).
pub open spec fn is_urn_uuid(text: Seq<char>) -> bool {
    &&& text.len() == 45
    &&& forall|i: int| 0 <= i < 9 ==> same_ignoring_ascii_case(#[trigger] text[i], urn_prefix()[i])
    &&& is_hyphenated_uuid(text.subrange(9, 45))
}

/// The texts that `uuid::Uuid::parse_str` accepts: the simple, hyphenated,
/// braced and URN forms.
pub open spec fn is_uuid_text(text: Seq<char>) -> bool {
    is_simple_uuid(text) || is_hyphenated_uuid(text) || is_braced_uuid(text) || is_urn_uuid(text)
}

/// Calls `uuid::Uuid::parse_str` and reports whether it accepted the text.
/// Claimed: it accepts exactly the four forms of `is_uuid_text`. The parser
/// dispatches on the byte length (32, 36, 38, 45) and takes only ASCII, so
/// lengths in bytes and in characters agree wherever it succeeds.
#[verifier::external_body]
fn uuid_parses(text: &str) -> (accepted: bool)
    ensures
        accepted == is_uuid_text(text@),
{
    uuid::Uuid::parse_str(text).is_ok()
}

/// Calls `uuid::Uuid::new_v4` and writes the id with `to_string`. Claimed:
/// the text is the hyphenated form; the id itself is random. The call panics
/// only if the system's random source fails.
#[verifier::external_body]
fn new_task_id() -> (id: String)
    ensures
        is_hyphenated_uuid(id@),
{
    uuid::Uuid::new_v4().to_string()
}

/// The answer to a queued job: its id, the queued message, and the resync
/// flag only when it was asked for.
pub fn queued_task_response(task_id: String, skip_resync: bool) -> (resp: TaskResponse)
    ensures
        resp.task_id == task_id,
        resp.message@ == queued_message(),
        resp.skip_resync == (if skip_resync { Some(true) } else { None::<bool> }),
{
    TaskResponse {
        task_id,
        message: String::from_str(
            "Notification update job queued successfully. Changes will be applied in the background.",
        ),
        skip_resync: if skip_resync { Some(true) } else { None },
    }
}

/// What the ids of queued jobs look like: the hyphenated text of a UUID.
pub open spec fn task_id_issued(task_id: Seq<char>) -> bool {
    is_hyphenated_uuid(task_id)
}

/// The ids on which a status request succeeds.
pub open spec fn task_status_accepted(task_id: Seq<char>) -> bool {
    is_uuid_text(task_id)
}

/// Queues a bulk update: issues a fresh job id and answers with it. The
/// mode to run the job with is handed back beside the answer.
pub fn set_all_notifications(request: NotificationModeRequest) -> (out: (TaskResponse, NotificationMode))
    ensures
        task_id_issued(out.0.task_id@),
        out.0.message@ == queued_message(),
        out.0.skip_resync == (if request.skip_resync { Some(true) } else { None::<bool> }),
        out.1 == request.mode_type,
{
    let task_id = new_task_id();
    (queued_task_response(task_id, request.skip_resync), request.mode_type)
}

/// The answer to a status request, given whether the id is a well-formed UUID.
pub fn task_status_response(task_id: String, accepted: bool) -> (r: Result<TaskResponse, ApiError>)
    ensures
        accepted ==> (r matches Ok(resp) && resp.task_id == task_id && resp.message@
            == processing_message() && resp.skip_resync is None),
        !accepted ==> r matches Err(ApiError::InvalidProperty),
{
    if accepted {
        Ok(
            TaskResponse {
                task_id,
                message: String::from_str(
                    "Task is being processed. Check your notification settings in a few minutes.",
                ),
                skip_resync: None,
            },
        )
    } else {
        Err(ApiError::InvalidProperty)
    }
}

/// Reports on a job: any id that parses as a UUID is "being processed";
/// any other id is an invalid property.
pub fn check_task_status(task_id: String) -> (r: Result<TaskResponse, ApiError>)
    ensures
        task_status_accepted(task_id@) ==> (r matches Ok(resp) && resp.task_id == task_id
            && resp.message@ == processing_message() && resp.skip_resync is None),
        !task_status_accepted(task_id@) ==> r matches Err(ApiError::InvalidProperty),
{
    let accepted = uuid_parses(task_id.as_str());
    task_status_response(task_id, accepted)
}

/// An id issued for a queued job is accepted when its status is asked for.
pub proof fn lemma_issued_task_ids_are_accepted(task_id: Seq<char>)
    requires
        task_id_issued(task_id),
    ensures
        task_status_accepted(task_id),
{
}

} // verus!
