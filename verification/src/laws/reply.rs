//! Laws of what a script comes to, and of what the caller is told.

use crate::json::Json;
use crate::laws::json;
use crate::reply;
use crate::reply::{EventAction, ScriptReply};
use vstd::prelude::*;

verus! {

/// Whether `value` is an object with a member called `__error`.
pub open spec fn is_error_object(value: Json) -> bool {
    value matches Json::Object(members) && exists|i: int|
        0 <= i < members@.len() && #[trigger] members@[i].0@ == "__error"@
}

/// What a value comes to: an error just if it is an error object, and otherwise
/// itself.
proof fn lemma_value_result(value: Json, r: Result<Json, String>)
    requires
        reply::is_value_result(value, r),
    ensures
        r is Err <==> is_error_object(value),
        r is Ok ==> r->Ok_0 == value,
        forall|members: Vec<(String, Json)>, i: int|
            value == Json::Object(members) && #[trigger] json::is_first(members@, i, "__error"@)
                ==> r is Err && match members@[i].1 {
                Json::String(error) => r->Err_0@ == error@,
                _ => r->Err_0@ == "Unknown error"@,
            },
{
    if let Json::Object(members) = value {
        json::lemma_first_or_missing(members@, "__error"@);
        if json::is_missing(members@, "__error"@) {
            assert(crate::json::member(members@, "__error"@) is None);
        } else {
            let i = choose|i: int| #[trigger] json::is_first(members@, i, "__error"@);
            json::law_first_member_is_found(members@, i, "__error"@);
            assert(members@[i].0@ == "__error"@);
        }
        assert forall|i: int| #[trigger] json::is_first(members@, i, "__error"@) implies r is Err
            && match members@[i].1 {
            Json::String(error) => r->Err_0@ == error@,
            _ => r->Err_0@ == "Unknown error"@,
        } by {
            json::law_first_member_is_found(members@, i, "__error"@);
        }
    }
}

/// A value that was read comes to an error if and only if it is an object one of
/// whose members is called `__error`. Every other value, be it `null`, a boolean,
/// a number, a string, an array or another object, comes back as it is.
pub proof fn law_only_error_objects_are_errors(value: Json, raw: &str, r: Result<Json, String>)
    requires
        call_ensures(reply::script_result, (Ok(value), raw), r),
    ensures
        r is Err <==> is_error_object(value),
        r is Ok ==> r->Ok_0 == value,
{
    lemma_value_result(value, r);
}

/// The error of an error object is its text, or a stock text where it is no text.
pub proof fn law_error_object_gives_its_text(
    members: Vec<(String, Json)>,
    i: int,
    raw: &str,
    r: Result<Json, String>,
)
    requires
        call_ensures(reply::script_result, (Ok(Json::Object(members)), raw), r),
        json::is_first(members@, i, "__error"@),
    ensures
        r is Err,
        members@[i].1 is String ==> r->Err_0@ == members@[i].1->String_0@,
        !(members@[i].1 is String) ==> r->Err_0@ == "Unknown error"@,
{
    lemma_value_result(Json::Object(members), r);
}

/// A text that cannot be read is the script's value as it stands.
pub proof fn law_unreadable_text_is_the_value(cause: String, raw: &str, r: Result<Json, String>)
    requires
        call_ensures(reply::script_result, (Err(cause), raw), r),
    ensures
        r is Ok,
        r->Ok_0 is String,
        r->Ok_0->String_0@ == raw@,
{
}

/// What a native script hands back is read as JSON: an error object comes to its
/// error, any other value to itself, and what is no JSON to its own text.
pub proof fn law_native_text_is_read(
    source: &str,
    parsed: Result<Json, String>,
    r: Result<Json, String>,
)
    requires
        call_ensures(crate::json::parse_json, (source,), parsed),
        call_ensures(reply::parse_json_result, (source,), r),
    ensures
        parsed is Ok ==> (r is Err <==> is_error_object(parsed->Ok_0)),
        parsed is Ok && r is Ok ==> r->Ok_0 == parsed->Ok_0,
        forall|members: Vec<(String, Json)>, i: int|
            parsed == Ok::<Json, String>(Json::Object(members)) && #[trigger] json::is_first(
                members@,
                i,
                "__error"@,
            ) ==> r is Err && match members@[i].1 {
                Json::String(error) => r->Err_0@ == error@,
                _ => r->Err_0@ == "Unknown error"@,
            },
        parsed is Err ==> r is Ok && r->Ok_0 is String && r->Ok_0->String_0@ == source@,
{
    if parsed is Ok {
        lemma_value_result(parsed->Ok_0, r);
    }
}

/// An error that native evaluation hands over is the outcome, whatever else is
/// handed over.
pub proof fn law_native_error_is_the_outcome(
    error: String,
    result: Option<Option<String>>,
    r: Result<Json, String>,
)
    requires
        call_ensures(reply::native_completion, (Some(error), result), r),
    ensures
        r == Err::<Json, String>(error),
{
}

/// Where native evaluation hands nothing over that has a text, the outcome is
/// `null`.
pub proof fn law_native_nothing_is_null(result: Option<Option<String>>, r: Result<Json, String>)
    requires
        call_ensures(reply::native_completion, (None, result), r),
        result is None || result->0 is None,
    ensures
        r == Ok::<Json, String>(Json::Null),
{
}

/// The text that native evaluation hands over without an error is read as JSON.
pub proof fn law_native_text_is_the_outcome(
    description: String,
    source: &str,
    parsed: Result<Json, String>,
    r: Result<Json, String>,
)
    requires
        source@ == description@,
        call_ensures(crate::json::parse_json, (source,), parsed),
        call_ensures(reply::native_completion, (None, Some(Some(description))), r),
    ensures
        parsed is Ok ==> (r is Err <==> is_error_object(parsed->Ok_0)),
        parsed is Ok && r is Ok ==> r->Ok_0 == parsed->Ok_0,
        forall|members: Vec<(String, Json)>, i: int|
            parsed == Ok::<Json, String>(Json::Object(members)) && #[trigger] json::is_first(
                members@,
                i,
                "__error"@,
            ) ==> r is Err && match members@[i].1 {
                Json::String(error) => r->Err_0@ == error@,
                _ => r->Err_0@ == "Unknown error"@,
            },
        parsed is Err ==> r is Ok && r->Ok_0 is String && r->Ok_0->String_0@ == source@,
{
    if parsed is Ok {
        lemma_value_result(parsed->Ok_0, r);
    }
}

/// The caller is told of a native script's value, or of its error, as it came.
pub proof fn law_native_outcome_is_told(outcome: Result<Json, String>, reply: ScriptReply)
    requires
        call_ensures(reply::native_reply, (Some(outcome),), reply),
    ensures
        outcome is Ok ==> reply == (ScriptReply::Success { data: outcome->Ok_0 }),
        outcome is Err ==> reply == (ScriptReply::Failure { error: outcome->Err_0 }),
{
}

/// The caller is told of a native script that comes to nothing in time, and of how
/// many seconds it was given.
pub proof fn law_native_timeout_is_told(reply: ScriptReply)
    requires
        call_ensures(reply::native_reply, (None,), reply),
    ensures
        reply is Failure,
        reply->error@ == "Script execution timeout ("@ + crate::text::decimal(
            reply::NATIVE_TIMEOUT_SECS as nat,
        ) + "s)"@,
{
    reveal_strlit("Script execution timeout (10s)");
    reveal_strlit("Script execution timeout (");
    reveal_strlit("s)");
    reveal_strlit("0");
    reveal_strlit("1");
    reveal_with_fuel(crate::text::decimal, 2);
    assert(reply->error@ == "Script execution timeout ("@ + ("1"@ + "0"@) + "s)"@);
}

/// The JSON form of a reply has just two members: whether the script succeeded,
/// and the data if it did or the error if it did not.
pub proof fn law_reply_is_told_in_full(reply: ScriptReply, object: Json)
    requires
        call_ensures(ScriptReply::into_json, (reply,), object),
    ensures
        object is Object,
        object->Object_0@.len() == 2,
        exists|i: int, j: int|
            {
                &&& 0 <= i < 2
                &&& j == 1 - i
                &&& (#[trigger] object->Object_0@[i]).0@ == "success"@
                &&& object->Object_0@[i].1 == Json::Bool(reply is Success)
                &&& reply is Success ==> (#[trigger] object->Object_0@[j]).0@ == "data"@
                    && object->Object_0@[j].1 == reply->data
                &&& reply is Failure ==> object->Object_0@[j].0@ == "error"@
                    && object->Object_0@[j].1 == Json::String(reply->error)
            },
{
    let members = object->Object_0@;
    assert(members[0].0@ == "success"@ && members[1] == members[1 - 0]);
}

/// Whether a payload tells of a success: its first member called `success` is
/// `true`.
pub open spec fn tells_of_success(payload: Seq<(String, Json)>) -> bool {
    exists|i: int| #[trigger]
        json::is_first(payload, i, "success"@) && payload[i].1 == Json::Bool(true)
}

/// Whether `reply` says what `payload` does: a success with the payload's own data,
/// or a failure with its own error.
pub open spec fn says_what_payload_does(
    payload: Seq<(String, Json)>,
    reply: ScriptReply,
) -> bool {
    &&& reply is Success <==> tells_of_success(payload)
    &&& reply is Success ==> forall|i: int| #[trigger]
        json::is_first(payload, i, "data"@) ==> reply->data == payload[i].1
    &&& reply is Success && json::is_missing(payload, "data"@) ==> reply->data == Json::Null
    &&& reply is Failure ==> forall|i: int| #[trigger]
        json::is_first(payload, i, "error"@) && payload[i].1 is String ==> reply->error@
            == payload[i].1->String_0@
    &&& reply is Failure && !(exists|i: int| #[trigger]
        json::is_first(payload, i, "error"@) && payload[i].1 is String) ==> reply->error@
        == "Unknown error"@
}

/// A payload's reply says what the payload does.
proof fn lemma_payload_reply(payload: Seq<(String, Json)>, reply: ScriptReply)
    requires
        reply::is_payload_reply(payload, reply),
    ensures
        says_what_payload_does(payload, reply),
{
    json::lemma_first_or_missing(payload, "success"@);
    json::lemma_first_or_missing(payload, "data"@);
    json::lemma_first_or_missing(payload, "error"@);
    assert forall|i: int| #[trigger] json::is_first(payload, i, "success"@) implies (
    reply::reports_success(payload) <==> payload[i].1 == Json::Bool(true)) by {
        json::law_first_member_is_found(payload, i, "success"@);
    }
    assert forall|i: int| #[trigger] json::is_first(payload, i, "data"@) implies crate::json::member(
        payload,
        "data"@,
    ) == Some(payload[i].1) by {
        json::law_first_member_is_found(payload, i, "data"@);
    }
    assert forall|i: int| #[trigger]
        json::is_first(payload, i, "error"@) implies crate::json::member(payload, "error"@)
        == Some(payload[i].1) by {
        json::law_first_member_is_found(payload, i, "error"@);
    }
}

/// What a payload reports is told as it is reported: a success with the payload's
/// data, or with `null` where it has none; or else a failure with the payload's
/// error, or with a stock text where that is no text.
pub proof fn law_payload_is_told(payload: Vec<(String, Json)>, reply: ScriptReply)
    requires
        call_ensures(reply::payload_reply, (payload,), reply),
    ensures
        says_what_payload_does(payload@, reply),
{
    lemma_payload_reply(payload@, reply);
}

/// Whether a payload names the execution `exec_id`: its first member called
/// `exec_id` is that text.
pub open spec fn names_execution(payload: Seq<(String, Json)>, exec_id: Seq<char>) -> bool {
    exists|i: int| #[trigger]
        json::is_first(payload, i, "exec_id"@) && payload[i].1 is String
            && payload[i].1->String_0@ == exec_id
}

/// What is done about a payload goes by the execution that it names.
proof fn lemma_payload_action(
    payload: Seq<(String, Json)>,
    exec_id: Seq<char>,
    action: EventAction,
)
    requires
        reply::is_payload_action(payload, exec_id, action),
    ensures
        names_execution(payload, exec_id) ==> action is Deliver && says_what_payload_does(
            payload,
            action->Deliver_0,
        ),
        !names_execution(payload, exec_id) ==> action == EventAction::Ignore,
{
    json::lemma_first_or_missing(payload, "exec_id"@);
    assert forall|i: int| #[trigger]
        json::is_first(payload, i, "exec_id"@) implies crate::json::member(payload, "exec_id"@)
        == Some(payload[i].1) by {
        json::law_first_member_is_found(payload, i, "exec_id"@);
    }
    if reply::is_addressed_to(payload, exec_id) {
        lemma_payload_reply(payload, action->Deliver_0);
    }
}

/// A payload that names the execution is delivered to it, as what it reports. Any
/// other is ignored.
pub proof fn law_payload_goes_where_it_is_addressed(
    payload: Vec<(String, Json)>,
    raw: &str,
    exec_id: &str,
    action: EventAction,
)
    requires
        call_ensures(reply::payload_action, (Ok(payload), raw, exec_id), action),
    ensures
        names_execution(payload@, exec_id@) ==> action is Deliver && says_what_payload_does(
            payload@,
            action->Deliver_0,
        ),
        !names_execution(payload@, exec_id@) ==> action == EventAction::Ignore,
{
    lemma_payload_action(payload@, exec_id@, action);
}

/// A payload that cannot be read is reported with the cause and the payload, and
/// nothing else is done about it.
pub proof fn law_bad_payload_is_reported(
    cause: String,
    raw: &str,
    exec_id: &str,
    action: EventAction,
)
    requires
        call_ensures(reply::payload_action, (Err(cause), raw, exec_id), action),
    ensures
        action is Report,
        action->Report_0@ == "Failed to parse __script_result payload: "@ + cause@ + ". Raw: "@
            + raw@,
{
}

/// An event is handled by what its payload reads as.
pub proof fn law_event_is_handled_by_its_payload(
    raw: &str,
    exec_id: &str,
    parsed: Result<Vec<(String, Json)>, String>,
    action: EventAction,
)
    requires
        call_ensures(crate::json::parse_members, (raw,), parsed),
        call_ensures(reply::handle_event, (raw, exec_id), action),
    ensures
        parsed is Ok && names_execution(parsed->Ok_0@, exec_id@) ==> action is Deliver
            && says_what_payload_does(parsed->Ok_0@, action->Deliver_0),
        parsed is Ok && !names_execution(parsed->Ok_0@, exec_id@) ==> action
            == EventAction::Ignore,
        parsed is Err ==> action is Report && action->Report_0@
            == "Failed to parse __script_result payload: "@ + parsed->Err_0@ + ". Raw: "@ + raw@,
{
    if parsed is Ok {
        lemma_payload_action(parsed->Ok_0@, exec_id@, action);
    }
}

/// A script that has no way to hand its value back is told of as a success without
/// data if it was evaluated, and otherwise by the cause.
pub proof fn law_evaluation_is_told(evaluated: Result<(), String>, r: Result<ScriptReply, String>)
    requires
        call_ensures(reply::evaluation_reply, (evaluated,), r),
    ensures
        r is Ok <==> evaluated is Ok,
        r is Ok ==> r->Ok_0 == (ScriptReply::Success { data: Json::Null }),
        r is Err ==> r->Err_0@ == "eval failed: "@ + evaluated->Err_0@,
{
}

/// The complaint about a webview that cannot be reached ends in the cause.
pub proof fn law_webview_complaint_gives_cause(cause: &str, message: String)
    requires
        call_ensures(reply::webview_access_error, (cause,), message),
    ensures
        message@ == "Failed to access webview: "@ + cause@,
{
}

} // verus!
