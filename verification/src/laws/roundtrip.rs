//! Laws of an execution that reports by an event, from the event to the answer.

use crate::json::Json;
use crate::laws::{json, reply};
use crate::reply::{EventAction, ScriptReply};
use crate::roundtrip;
use crate::roundtrip::{EventRun, PendingResults, RunAction, RunEvent};
use vstd::prelude::*;

verus! {

/// The reply that came is the one that the caller is given, whatever it says, and
/// those who wait stay as they are.
pub proof fn law_reply_reaches_the_caller<S>(
    pending: &mut PendingResults<S>,
    exec_id: &str,
    received: ScriptReply,
    action: RunAction,
)
    requires
        call_ensures(
            roundtrip::step_run::<S>,
            (pending, exec_id, RunEvent::Replied(received)),
            action,
        ),
    ensures
        action is Finish,
        action->reply == received,
        action->stop_listening,
        final(pending)@ == old(pending)@,
{
}

/// A script that the webview took is waited for, and whoever waits stays.
pub proof fn law_taken_script_is_waited_for<S>(
    pending: &mut PendingResults<S>,
    exec_id: &str,
    action: RunAction,
)
    requires
        call_ensures(
            roundtrip::step_run::<S>,
            (pending, exec_id, RunEvent::Evaluated(Ok(()))),
            action,
        ),
    ensures
        action is AwaitReply,
        action->timeout_secs == 5,
        final(pending)@ == old(pending)@,
{
}

/// The caller is told why the webview refused a script, and nobody waits for it.
pub proof fn law_refusal_is_told<S>(
    pending: &mut PendingResults<S>,
    exec_id: &str,
    cause: String,
    action: RunAction,
)
    requires
        call_ensures(
            roundtrip::step_run::<S>,
            (pending, exec_id, RunEvent::Evaluated(Err(cause))),
            action,
        ),
    ensures
        action is Finish,
        action->reply is Failure,
        action->reply->error@ == "Failed to execute script: "@ + cause@,
        !action->stop_listening,
        final(pending)@ == old(pending)@.remove(exec_id@),
{
}

/// The caller is told that no reply can come any more.
pub proof fn law_closed_channel_is_told<S>(
    pending: &mut PendingResults<S>,
    exec_id: &str,
    action: RunAction,
)
    requires
        call_ensures(
            roundtrip::step_run::<S>,
            (pending, exec_id, RunEvent::ChannelClosed),
            action,
        ),
    ensures
        action is Finish,
        action->reply is Failure,
        action->reply->error@ == "Script execution failed: channel closed"@,
        action->stop_listening,
        final(pending)@ == old(pending)@,
{
}

/// The caller is told that no reply came in time, and nobody waits for it.
pub proof fn law_timeout_is_told<S>(
    pending: &mut PendingResults<S>,
    exec_id: &str,
    action: RunAction,
)
    requires
        call_ensures(roundtrip::step_run::<S>, (pending, exec_id, RunEvent::TimedOut), action),
    ensures
        action is Finish,
        action->reply is Failure,
        action->reply->error@ == "Script execution timeout"@,
        action->stop_listening,
        final(pending)@ == old(pending)@.remove(exec_id@),
{
}

/// No success is made up: a caller who is told of one is told of the reply that
/// came.
pub proof fn law_no_success_is_made_up<S>(
    pending: &mut PendingResults<S>,
    exec_id: &str,
    event: RunEvent,
    action: RunAction,
)
    requires
        call_ensures(roundtrip::step_run::<S>, (pending, exec_id, event), action),
        action is Finish,
        action->reply is Success,
    ensures
        event == RunEvent::Replied(action->reply),
{
}

/// A reply goes to whoever waits for the execution, unchanged, and whoever that was
/// waits no longer. Where nobody waits, it goes to nobody. All others keep waiting.
pub proof fn law_reply_goes_to_who_waits<S>(
    pending: &mut PendingResults<S>,
    exec_id: &str,
    reply: ScriptReply,
    handed: Option<(S, ScriptReply)>,
    other: Seq<char>,
)
    requires
        call_ensures(
            roundtrip::hand_over::<S>,
            (pending, exec_id, EventAction::Deliver(reply)),
            handed,
        ),
    ensures
        handed is Some <==> old(pending)@.contains_key(exec_id@),
        handed is Some ==> (handed->0).0 == old(pending)@[exec_id@] && (handed->0).1 == reply,
        !final(pending)@.contains_key(exec_id@),
        other != exec_id@ ==> (final(pending)@.contains_key(other) <==> old(pending)@.contains_key(other)),
        other != exec_id@ && old(pending)@.contains_key(other) ==> final(pending)@[other] == old(pending)@[other],
{
}

/// An event that delivers no reply leaves those who wait alone.
pub proof fn law_nothing_goes_without_a_reply<S>(
    pending: &mut PendingResults<S>,
    exec_id: &str,
    action: EventAction,
    handed: Option<(S, ScriptReply)>,
)
    requires
        call_ensures(roundtrip::hand_over::<S>, (pending, exec_id, action), handed),
        !(action is Deliver),
    ensures
        handed is None,
        final(pending)@ == old(pending)@,
{
}

/// From the event to the answer: if the event's payload names the execution, for
/// which somebody waits, then the reply that ends the execution says what the
/// payload does, and so does the caller's answer. A success is answered with the
/// payload's own data, a failure with its own error.
pub proof fn law_event_payload_is_the_answer<S>(
    raw: &str,
    exec_id: &str,
    payload: Vec<(String, Json)>,
    delivery: EventAction,
    listener: &mut PendingResults<S>,
    handed: Option<(S, ScriptReply)>,
    waiter: &mut PendingResults<S>,
    action: RunAction,
    answer: Json,
    success: int,
    data: int,
    error: int,
)
    requires
        call_ensures(crate::json::parse_members, (raw,), Ok(payload)),
        reply::names_execution(payload@, exec_id@),
        call_ensures(crate::reply::handle_event, (raw, exec_id), delivery),
        old(listener)@.contains_key(exec_id@),
        call_ensures(roundtrip::hand_over::<S>, (listener, exec_id, delivery), handed),
        call_ensures(
            roundtrip::step_run::<S>,
            (waiter, exec_id, RunEvent::Replied((handed->0).1)),
            action,
        ),
        call_ensures(ScriptReply::into_json, (action->reply,), answer),
    ensures
        handed is Some,
        (handed->0).0 == old(listener)@[exec_id@],
        action is Finish,
        reply::says_what_payload_does(payload@, action->reply),
        answer is Object,
        json::is_first(payload@, success, "success"@) && payload@[success].1 == Json::Bool(true)
            && json::is_first(payload@, data, "data"@) ==> {
            &&& action->reply == (ScriptReply::Success { data: payload@[data].1 })
            &&& crate::json::member(answer->Object_0@, "success"@) == Some(Json::Bool(true))
            &&& crate::json::member(answer->Object_0@, "data"@) == Some(payload@[data].1)
        },
        json::is_first(payload@, success, "success"@) && payload@[success].1 != Json::Bool(true)
            && json::is_first(payload@, error, "error"@) && payload@[error].1 is String ==> {
            &&& action->reply is Failure
            &&& action->reply->error@ == payload@[error].1->String_0@
            &&& crate::json::member(answer->Object_0@, "success"@) == Some(Json::Bool(false))
            &&& crate::json::member(answer->Object_0@, "error"@) == Some(
                Json::String(action->reply->error),
            )
        },
{
    reply::law_event_is_handled_by_its_payload(raw, exec_id, Ok(payload), delivery);
    if json::is_first(payload@, success, "success"@) {
        json::law_first_member_is_found(payload@, success, "success"@);
        assert forall|i: int| #[trigger] json::is_first(payload@, i, "success"@) implies payload@[i].1
            == payload@[success].1 by {
            json::law_first_member_is_found(payload@, i, "success"@);
        }
    }
    crate::reply::law_reply_object_members(action->reply, answer->Object_0);
}

/// Whoever is let wait is found under that id, in place of whoever waited before,
/// and taking them out leaves nobody waiting under it. All others keep waiting.
pub proof fn law_who_waits_is_found<S>(
    first: &mut PendingResults<S>,
    exec_id: String,
    sender: S,
    second: &mut PendingResults<S>,
    wanted: &str,
    found: Option<S>,
    other: Seq<char>,
)
    requires
        call_ensures(PendingResults::<S>::insert, (first, exec_id, sender), ()),
        old(second)@ == final(first)@,
        call_ensures(PendingResults::<S>::remove, (second, wanted), found),
    ensures
        wanted@ == exec_id@ ==> found == Some(sender),
        wanted@ != exec_id@ ==> (found is Some <==> old(first)@.contains_key(wanted@)),
        wanted@ != exec_id@ && found is Some ==> found->0 == old(first)@[wanted@],
        !final(second)@.contains_key(wanted@),
        other != exec_id@ && other != wanted@ ==> (final(second)@.contains_key(other) <==> old(first)@.contains_key(other)),
        other != exec_id@ && other != wanted@ && old(first)@.contains_key(other) ==> final(second)@[other] == old(first)@[other],
        wanted@ != exec_id@ ==> final(second)@.contains_key(exec_id@) && final(second)@[exec_id@]
            == sender,
{
}

/// Nobody waits at first.
pub proof fn law_nobody_waits_at_first<S>(pending: PendingResults<S>, exec_id: Seq<char>)
    requires
        call_ensures(PendingResults::<S>::new, (), pending),
    ensures
        !pending@.contains_key(exec_id),
{
}

/// A new execution's id is a random UUID: hexadecimal digits in five groups, with
/// the marks of its kind.
pub proof fn law_new_id_is_a_random_uuid(source: &str, run: EventRun, i: int)
    requires
        call_ensures(EventRun::start, (source,), run),
        0 <= i < run.exec_id@.len(),
    ensures
        run.exec_id@.len() == 36,
        run.exec_id@[i] == '-' <==> i == 8 || i == 13 || i == 18 || i == 23,
        run.exec_id@[i] != '-' ==> '0' <= run.exec_id@[i] <= '9' || 'a' <= run.exec_id@[i] <= 'f',
        run.exec_id@[14] == '4',
        run.exec_id@[19] == '8' || run.exec_id@[19] == '9' || run.exec_id@[19] == 'a'
            || run.exec_id@[19] == 'b',
{
}

} // verus!
