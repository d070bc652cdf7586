//! What a script comes to, and what the caller is told of it.

use crate::json;
use crate::json::Json;
use vstd::prelude::*;

verus! {

/// How long a natively evaluated script may take, in seconds.
pub const NATIVE_TIMEOUT_SECS: u64 = 10;

/// How long a script that reports by event may take, in seconds.
pub const EVENT_TIMEOUT_SECS: u64 = 5;

/// The answer to a request to run a script.
#[derive(Debug, PartialEq)]
pub enum ScriptReply {
    /// The script ran, and this is its value.
    Success { data: Json },
    /// The script failed, and this is why.
    Failure { error: String },
}

/// Whether `reply` reports a failure with the text `error`.
pub open spec fn is_failure(reply: ScriptReply, error: Seq<char>) -> bool {
    reply matches ScriptReply::Failure { error: e } && e@ == error
}

/// Whether `object` is the JSON form of `reply`: an object that tells of success,
/// and beside that holds either the data or the error.
pub open spec fn is_reply_object(reply: ScriptReply, object: Json) -> bool {
    &&& object matches Json::Object(members)
    &&& members@.len() == 2
    &&& members@[0].0@ == "success"@
    &&& members@[0].1 == Json::Bool(reply is Success)
    &&& match reply {
        ScriptReply::Success { data } => members@[1].0@ == "data"@ && members@[1].1 == data,
        ScriptReply::Failure { error } => members@[1].0@ == "error"@ && members@[1].1
            == Json::String(error),
    }
}

impl ScriptReply {
    /// The JSON form of the reply.
    pub fn into_json(self) -> (object: Json)
        ensures
            is_reply_object(self, object),
    {
        let mut members: Vec<(String, Json)> = Vec::new();
        match self {
            ScriptReply::Success { data } => {
                members.push(("success".to_owned(), Json::Bool(true)));
                members.push(("data".to_owned(), data));
            },
            ScriptReply::Failure { error } => {
                members.push(("success".to_owned(), Json::Bool(false)));
                members.push(("error".to_owned(), Json::String(error)));
            },
        }
        Json::Object(members)
    }
}

/// The error that a script's value stands for, if it stands for one: the value
/// is an object with the key `__error`.
pub open spec fn script_error(value: Json) -> Option<Seq<char>> {
    match value {
        Json::Object(members) => match json::member(members@, "__error"@) {
            Some(Json::String(error)) => Some(error@),
            Some(_) => Some("Unknown error"@),
            None => None,
        },
        _ => None,
    }
}

/// Whether `r` is what a script comes to that handed back `value`.
pub open spec fn is_value_result(value: Json, r: Result<Json, String>) -> bool {
    match script_error(value) {
        Some(error) => r matches Err(e) && e@ == error,
        None => r == Ok::<Json, String>(value),
    }
}

/// Whether `r` is a success whose value is the text `raw`.
pub open spec fn is_text_result(raw: Seq<char>, r: Result<Json, String>) -> bool {
    r matches Ok(Json::String(text)) && text@ == raw
}

/// Whether `r` is what a script comes to that handed back the text `raw`. A text
/// that is no JSON stands for itself.
pub open spec fn is_json_result(raw: Seq<char>, r: Result<Json, String>) -> bool {
    match json::parsed_value(raw) {
        Ok(value) => is_value_result(json::value_contents(value), r),
        Err(_) => is_text_result(raw, r),
    }
}

/// What a script comes to that handed back `raw`, given what `raw` reads as.
pub fn script_result(parsed: Result<Json, String>, raw: &str) -> (r: Result<Json, String>)
    ensures
        match parsed {
            Ok(value) => is_value_result(value, r),
            Err(_) => is_text_result(raw@, r),
        },
{
    match parsed {
        Ok(Json::Object(members)) => match json::position_of(&members, "__error") {
            Some(i) => match &members[i].1 {
                Json::String(error) => Err(error.clone()),
                _ => Err("Unknown error".to_owned()),
            },
            None => Ok(Json::Object(members)),
        },
        Ok(value) => Ok(value),
        Err(_) => Ok(Json::String(raw.to_owned())),
    }
}

/// Reads the JSON text that a natively evaluated script hands back. The key
/// `__error` propagates the script's error.
pub fn parse_json_result(json_str: &str) -> (r: Result<Json, String>)
    ensures
        is_json_result(json_str@, r),
{
    script_result(json::parse_json(json_str), json_str)
}

/// What a natively evaluated script comes to when its evaluation completes.
///
/// `error` is the description of the error that was handed over, if any, and
/// `result` the result object, if any, by its own description, if it has one.
pub fn native_completion(error: Option<String>, result: Option<Option<String>>) -> (r: Result<
    Json,
    String,
>)
    ensures
        match (error, result) {
            (Some(e), _) => r == Err::<Json, String>(e),
            (None, Some(Some(description))) => is_json_result(description@, r),
            (None, _) => r == Ok::<Json, String>(Json::Null),
        },
{
    match error {
        Some(e) => Err(e),
        None => match result {
            Some(Some(description)) => parse_json_result(description.as_str()),
            _ => Ok(Json::Null),
        },
    }
}

/// Whether `reply` answers a natively evaluated script that came to `received` in
/// time, if to anything.
pub open spec fn is_native_reply(
    received: Option<Result<Json, String>>,
    reply: ScriptReply,
) -> bool {
    match received {
        Some(Ok(data)) => reply == (ScriptReply::Success { data }),
        Some(Err(error)) => reply == (ScriptReply::Failure { error }),
        None => is_failure(reply, "Script execution timeout (10s)"@),
    }
}

/// The reply to a natively evaluated script, given what it came to in time, if
/// anything.
pub fn native_reply(received: Option<Result<Json, String>>) -> (reply: ScriptReply)
    ensures
        is_native_reply(received, reply),
{
    match received {
        Some(Ok(data)) => ScriptReply::Success { data },
        Some(Err(error)) => ScriptReply::Failure { error },
        None => ScriptReply::Failure { error: "Script execution timeout (10s)".to_owned() },
    }
}

/// The complaint about a webview that cannot be reached.
pub fn webview_access_error(cause: &str) -> (message: String)
    ensures
        message@ == "Failed to access webview: "@ + cause@,
{
    let mut message = "Failed to access webview: ".to_owned();
    message.append(cause);
    message
}

/// The answer to a script that was evaluated with no way to hand its value back:
/// a success without data, or the complaint about the failed evaluation.
pub fn evaluation_reply(evaluated: Result<(), String>) -> (r: Result<ScriptReply, String>)
    ensures
        match evaluated {
            Ok(_) => r == Ok::<ScriptReply, String>(ScriptReply::Success { data: Json::Null }),
            Err(cause) => r matches Err(message) && message@ == "eval failed: "@ + cause@,
        },
{
    match evaluated {
        Ok(_) => Ok(ScriptReply::Success { data: Json::Null }),
        Err(cause) => {
            let mut message = "eval failed: ".to_owned();
            message.append(cause.as_str());
            Err(message)
        },
    }
}

/// Whether a payload reports that its script succeeded.
pub open spec fn reports_success(payload: Seq<(String, Json)>) -> bool {
    json::member(payload, "success"@) == Some(Json::Bool(true))
}

/// Whether `reply` is what a payload reports of its script: a success with the
/// data, or with `null` where there is none; otherwise a failure with the error,
/// or with a stock text where none is given as a string.
pub open spec fn is_payload_reply(payload: Seq<(String, Json)>, reply: ScriptReply) -> bool {
    if reports_success(payload) {
        reply == (ScriptReply::Success {
            data: match json::member(payload, "data"@) {
                Some(data) => data,
                None => Json::Null,
            },
        })
    } else {
        match json::member(payload, "error"@) {
            Some(Json::String(error)) => reply == (ScriptReply::Failure { error }),
            _ => is_failure(reply, "Unknown error"@),
        }
    }
}

/// What a payload reports of its script.
pub fn payload_reply(payload: Vec<(String, Json)>) -> (reply: ScriptReply)
    ensures
        is_payload_reply(payload@, reply),
{
    let success = match json::position_of(&payload, "success") {
        Some(i) => match &payload[i].1 {
            Json::Bool(flag) => *flag,
            _ => false,
        },
        None => false,
    };
    if success {
        match json::take_member(payload, "data") {
            Some(data) => ScriptReply::Success { data },
            None => ScriptReply::Success { data: Json::Null },
        }
    } else {
        match json::take_member(payload, "error") {
            Some(Json::String(error)) => ScriptReply::Failure { error },
            _ => ScriptReply::Failure { error: "Unknown error".to_owned() },
        }
    }
}

/// What is to be done about an event that reports a script's result.
#[derive(Debug, PartialEq)]
pub enum EventAction {
    /// Nothing: the event belongs to another execution.
    Ignore,
    /// Hand this reply to whoever waits for it.
    Deliver(ScriptReply),
    /// Log this error.
    Report(String),
}

/// Whether a payload belongs to the execution `exec_id`.
pub open spec fn is_addressed_to(payload: Seq<(String, Json)>, exec_id: Seq<char>) -> bool {
    json::member(payload, "exec_id"@) matches Some(Json::String(id)) && id@ == exec_id
}

/// Whether `action` is what a listener for `exec_id` does about `payload`.
pub open spec fn is_payload_action(
    payload: Seq<(String, Json)>,
    exec_id: Seq<char>,
    action: EventAction,
) -> bool {
    if is_addressed_to(payload, exec_id) {
        action matches EventAction::Deliver(reply) && is_payload_reply(payload, reply)
    } else {
        action == EventAction::Ignore
    }
}

/// Whether `action` logs that the payload `raw` cannot be read.
pub open spec fn is_payload_complaint(
    cause: Seq<char>,
    raw: Seq<char>,
    action: EventAction,
) -> bool {
    action matches EventAction::Report(message) && message@
        == "Failed to parse __script_result payload: "@ + cause + ". Raw: "@ + raw
}

/// What a listener for `exec_id` does about an event with the payload `raw`,
/// given what `raw` reads as.
pub fn payload_action(
    parsed: Result<Vec<(String, Json)>, String>,
    raw: &str,
    exec_id: &str,
) -> (action: EventAction)
    ensures
        match parsed {
            Ok(payload) => is_payload_action(payload@, exec_id@, action),
            Err(cause) => is_payload_complaint(cause@, raw@, action),
        },
{
    match parsed {
        Ok(payload) => {
            let wanted = exec_id.to_owned();
            let addressed = match json::position_of(&payload, "exec_id") {
                Some(i) => match &payload[i].1 {
                    Json::String(id) => *id == wanted,
                    _ => false,
                },
                None => false,
            };
            if addressed {
                EventAction::Deliver(payload_reply(payload))
            } else {
                EventAction::Ignore
            }
        },
        Err(cause) => {
            let mut message = "Failed to parse __script_result payload: ".to_owned();
            message.append(cause.as_str());
            message.append(". Raw: ");
            message.append(raw);
            EventAction::Report(message)
        },
    }
}

/// Whether `action` is what a listener for `exec_id` does about an event with the
/// payload `raw`.
pub open spec fn is_event_action(raw: Seq<char>, exec_id: Seq<char>, action: EventAction) -> bool {
    match json::parsed_object(raw) {
        Ok(value) => json::value_contents(value) matches Json::Object(payload)
            && is_payload_action(payload@, exec_id, action),
        Err(error) => is_payload_complaint(json::error_message(error), raw, action),
    }
}

/// Whether an event with the payload `raw` is none that the execution `exec_id`
/// waits for: the payload cannot be read, or it does not name that execution.
pub open spec fn is_stray_event(raw: Seq<char>, exec_id: Seq<char>) -> bool {
    match json::parsed_object(raw) {
        Ok(value) => !(json::value_contents(value) matches Json::Object(payload)
            && is_addressed_to(payload@, exec_id)),
        Err(_) => true,
    }
}

/// What a listener for `exec_id` does about an event with the payload `raw`.
pub fn handle_event(raw: &str, exec_id: &str) -> (action: EventAction)
    ensures
        is_event_action(raw@, exec_id@, action),
{
    payload_action(json::parse_members(raw), raw, exec_id)
}

/// A script that hands back an error object is answered with a failure that
/// carries its text. Any other value comes back as the data, unchanged.
pub proof fn law_native_value_answered(
    value: Json,
    result: Result<Json, String>,
    reply: ScriptReply,
)
    requires
        is_value_result(value, result),
        is_native_reply(Some(result), reply),
    ensures
        match script_error(value) {
            Some(error) => is_failure(reply, error),
            None => reply == (ScriptReply::Success { data: value }),
        },
{
}

/// A reply tells in its JSON form whether the script succeeded, holds data only
/// if it did, and an error only if it did not.
pub proof fn law_reply_object_members(reply: ScriptReply, members: Vec<(String, Json)>)
    requires
        is_reply_object(reply, Json::Object(members)),
    ensures
        json::member(members@, "success"@) == Some(Json::Bool(reply is Success)),
        json::member(members@, "data"@) == (match reply {
            ScriptReply::Success { data } => Some(data),
            ScriptReply::Failure { .. } => None::<Json>,
        }),
        json::member(members@, "error"@) == (match reply {
            ScriptReply::Success { .. } => None::<Json>,
            ScriptReply::Failure { error } => Some(Json::String(error)),
        }),
{
    reveal_strlit("success");
    reveal_strlit("data");
    reveal_strlit("error");
    assert("success"@.len() != "data"@.len());
    assert("success"@.len() != "error"@.len());
    assert("data"@.len() != "error"@.len());
    let rest = members@.drop_first();
    assert(rest.first() == members@[1]);
    assert(rest.drop_first().len() == 0);
    reveal_with_fuel(json::member, 3);
}

/// The JSON form of a reply, read as an event's payload, reports that reply.
pub proof fn law_reply_object_read_back(
    reply: ScriptReply,
    members: Vec<(String, Json)>,
    read: ScriptReply,
)
    requires
        is_reply_object(reply, Json::Object(members)),
        is_payload_reply(members@, read),
    ensures
        read == reply,
{
    law_reply_object_members(reply, members);
}

/// An event that belongs to one execution is nothing to any other.
pub proof fn law_event_has_one_addressee(
    payload: Seq<(String, Json)>,
    exec_id: Seq<char>,
    other: Seq<char>,
    action: EventAction,
)
    requires
        is_addressed_to(payload, exec_id),
        other != exec_id,
        is_payload_action(payload, other, action),
    ensures
        action == EventAction::Ignore,
{
}

/// A stray event delivers nothing: one whose payload names no execution, or names
/// it by other than a string, or names another, is ignored.
pub proof fn law_stray_payload_is_ignored(
    payload: Seq<(String, Json)>,
    exec_id: Seq<char>,
    action: EventAction,
)
    requires
        !is_addressed_to(payload, exec_id),
        is_payload_action(payload, exec_id, action),
    ensures
        action == EventAction::Ignore,
{
}

/// An event whose payload cannot be read is logged and delivers nothing.
pub proof fn law_unreadable_payload_is_logged(
    cause: Seq<char>,
    raw: Seq<char>,
    action: EventAction,
)
    requires
        is_payload_complaint(cause, raw, action),
    ensures
        action is Report,
        !(action is Deliver),
{
}

/// A stray event delivers nothing. It is logged if its payload cannot be read, and
/// ignored otherwise.
pub proof fn law_stray_event_delivers_nothing(
    raw: Seq<char>,
    exec_id: Seq<char>,
    action: EventAction,
)
    requires
        is_stray_event(raw, exec_id),
        is_event_action(raw, exec_id, action),
    ensures
        !(action is Deliver),
        action is Report <==> json::parsed_object(raw) is Err,
{
}

} // verus!
