use serde_json::Number;
use tauri_plugin_mcp_bridge::json::{parse_json, parse_members, Json};
use tauri_plugin_mcp_bridge::reply::{
    evaluation_reply, handle_event, native_completion, native_reply, parse_json_result,
    payload_action, payload_reply, script_result, webview_access_error, EventAction, ScriptReply,
};

fn text(s: &str) -> Json {
    Json::String(s.to_string())
}

fn object(members: Vec<(&str, Json)>) -> Vec<(String, Json)> {
    members.into_iter().map(|(k, v)| (k.to_string(), v)).collect()
}

fn failure(error: &str) -> ScriptReply {
    ScriptReply::Failure { error: error.to_string() }
}

#[test]
fn json_is_read_at_every_depth() {
    let parsed = parse_json(r#"{"b":[1,-2,2.5,null,true,"x"],"a":{"c":{}}}"#).unwrap();
    let Json::Object(members) = parsed else { panic!("no object") };
    assert_eq!(members.len(), 2);
    for (key, value) in members {
        if key == "a" {
            assert_eq!(
                value,
                Json::Object(object(vec![("c", Json::Object(Vec::new()))]))
            );
        } else {
            assert_eq!(key, "b");
            assert_eq!(
                value,
                Json::Array(vec![
                    Json::Number(Number::from(1u64)),
                    Json::Number(Number::from(-2i64)),
                    Json::Number(Number::from_f64(2.5).unwrap()),
                    Json::Null,
                    Json::Bool(true),
                    text("x"),
                ])
            );
        }
    }
}

#[test]
fn a_key_given_twice_is_read_once() {
    let members = parse_members(r#"{"a":1,"a":"last"}"#).unwrap();
    assert_eq!(members, object(vec![("a", text("last"))]));
}

#[test]
fn only_objects_have_members() {
    assert!(parse_members("[1]").is_err());
    assert!(parse_members("null").is_err());
    assert_eq!(parse_members("{}").unwrap(), Vec::new());
    let message = parse_members("{").unwrap_err();
    assert_eq!(message, "EOF while parsing an object at line 1 column 1");
}

#[test]
fn plain_values_come_back() {
    assert_eq!(parse_json_result("null"), Ok(Json::Null));
    assert_eq!(parse_json_result("\"a\\nb\""), Ok(text("a\nb")));
    assert_eq!(parse_json_result("7"), Ok(Json::Number(Number::from(7u64))));
    assert_eq!(
        parse_json_result(r#"{"error":"fine"}"#),
        Ok(Json::Object(object(vec![("error", text("fine"))])))
    );
}

#[test]
fn script_errors_are_propagated() {
    assert_eq!(parse_json_result(r#"{"__error":"x is not defined"}"#), Err("x is not defined".to_string()));
    assert_eq!(parse_json_result(r#"{"__error":5}"#), Err("Unknown error".to_string()));
    assert_eq!(parse_json_result(r#"{"a":1,"__error":null}"#), Err("Unknown error".to_string()));
}

#[test]
fn nested_error_key_is_no_error() {
    let value = Json::Object(object(vec![(
        "a",
        Json::Object(object(vec![("__error", text("inner"))])),
    )]));
    let expected = Json::Object(object(vec![(
        "a",
        Json::Object(object(vec![("__error", text("inner"))])),
    )]));
    assert_eq!(script_result(Ok(value), "unused"), Ok(expected));
}

#[test]
fn text_that_is_no_json_stands_for_itself() {
    assert_eq!(parse_json_result("<NSObject: 0x1>"), Ok(text("<NSObject: 0x1>")));
    assert_eq!(parse_json_result(""), Ok(text("")));
    assert_eq!(script_result(Err("why".to_string()), "raw"), Ok(text("raw")));
}

#[test]
fn native_completions() {
    assert_eq!(
        native_completion(Some("denied".to_string()), Some(Some("1".to_string()))),
        Err("denied".to_string())
    );
    assert_eq!(native_completion(None, Some(Some("true".to_string()))), Ok(Json::Bool(true)));
    assert_eq!(
        native_completion(None, Some(Some(r#"{"__error":"bad"}"#.to_string()))),
        Err("bad".to_string())
    );
    assert_eq!(native_completion(None, Some(None)), Ok(Json::Null));
    assert_eq!(native_completion(None, None), Ok(Json::Null));
}

#[test]
fn native_replies() {
    assert_eq!(native_reply(Some(Ok(text("v")))), ScriptReply::Success { data: text("v") });
    assert_eq!(native_reply(Some(Err("bad".to_string()))), failure("bad"));
    assert_eq!(native_reply(None), failure("Script execution timeout (10s)"));
}

#[test]
fn native_error_object_is_answered_with_its_text() {
    let result = script_result(
        Ok(Json::Object(object(vec![("__error", text("boom"))]))),
        "{\"__error\":\"boom\"}",
    );
    assert_eq!(native_reply(Some(result)), failure("boom"));
}

#[test]
fn evaluation_without_a_way_back() {
    assert_eq!(evaluation_reply(Ok(())), Ok(ScriptReply::Success { data: Json::Null }));
    assert_eq!(evaluation_reply(Err("gone".to_string())), Err("eval failed: gone".to_string()));
    assert_eq!(webview_access_error("gone"), "Failed to access webview: gone");
}

#[test]
fn replies_as_json() {
    assert_eq!(
        ScriptReply::Success { data: text("v") }.into_json(),
        Json::Object(object(vec![("success", Json::Bool(true)), ("data", text("v"))]))
    );
    assert_eq!(
        failure("bad").into_json(),
        Json::Object(object(vec![("success", Json::Bool(false)), ("error", text("bad"))]))
    );
}

#[test]
fn replies_are_read_back() {
    for reply in [
        || ScriptReply::Success { data: Json::Bool(false) },
        || ScriptReply::Success { data: Json::Null },
        || failure("bad"),
    ] {
        let Json::Object(members) = reply().into_json() else { panic!("no object") };
        assert_eq!(payload_reply(members), reply());
    }
}

#[test]
fn payloads_without_success() {
    let unknown = failure("Unknown error");
    assert_eq!(payload_reply(Vec::new()), unknown);
    assert_eq!(payload_reply(object(vec![("success", text("true"))])), unknown);
    assert_eq!(payload_reply(object(vec![("success", Json::Bool(false)), ("error", Json::Null)])), unknown);
    assert_eq!(payload_reply(object(vec![("data", Json::Null), ("error", text("bad"))])), failure("bad"));
}

#[test]
fn payload_success_without_data() {
    assert_eq!(
        payload_reply(object(vec![("success", Json::Bool(true)), ("error", text("ignored"))])),
        ScriptReply::Success { data: Json::Null }
    );
}

#[test]
fn events_are_delivered_to_their_execution_only() {
    let raw = r#"{"exec_id":"one","success":true,"data":"v","error":null}"#;
    assert_eq!(
        handle_event(raw, "one"),
        EventAction::Deliver(ScriptReply::Success { data: text("v") })
    );
    assert_eq!(handle_event(raw, "two"), EventAction::Ignore);
    assert_eq!(handle_event(r#"{"success":true}"#, "one"), EventAction::Ignore);
    assert_eq!(handle_event(r#"{"exec_id":1,"success":true}"#, "1"), EventAction::Ignore);
}

#[test]
fn failed_scripts_are_delivered_too() {
    let raw = r#"{"exec_id":"one","success":false,"data":null,"error":"bad"}"#;
    assert_eq!(handle_event(raw, "one"), EventAction::Deliver(failure("bad")));
}

#[test]
fn unreadable_events_are_reported() {
    assert_eq!(
        handle_event("{", "one"),
        EventAction::Report(
            "Failed to parse __script_result payload: EOF while parsing an object at line 1 column 1. Raw: {"
                .to_string()
        )
    );
    assert_eq!(
        payload_action(Err("why".to_string()), "raw", "one"),
        EventAction::Report("Failed to parse __script_result payload: why. Raw: raw".to_string())
    );
}

#[test]
fn stray_events_deliver_nothing() {
    for raw in [
        r#"{"success":true}"#,
        r#"{"exec_id":null,"success":true}"#,
        r#"{"exec_id":7,"success":true}"#,
        r#"{"exec_id":["one"],"success":true}"#,
        r#"{"exec_id":"two","success":true}"#,
    ] {
        assert_eq!(handle_event(raw, "one"), EventAction::Ignore);
    }
    for raw in ["", "{", "[]", "7", "\"one\""] {
        assert!(matches!(handle_event(raw, "one"), EventAction::Report(_)));
    }
}
