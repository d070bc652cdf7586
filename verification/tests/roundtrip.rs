use tauri_plugin_mcp_bridge::json::Json;
use tauri_plugin_mcp_bridge::reply::{handle_event, EventAction, ScriptReply};
use tauri_plugin_mcp_bridge::roundtrip::{
    hand_over, step_run, EventRun, PendingResults, RunAction, RunEvent,
};
use tauri_plugin_mcp_bridge::script::{prepare_script, wrap_for_event};

fn failure(error: &str) -> ScriptReply {
    ScriptReply::Failure { error: error.to_string() }
}

#[test]
fn runs_have_random_ids() {
    let one = EventRun::start("1");
    let two = EventRun::start("1");
    assert_ne!(one.exec_id, two.exec_id);
    for run in [one, two] {
        let id: Vec<char> = run.exec_id.chars().collect();
        assert_eq!(id.len(), 36);
        for (i, c) in id.iter().enumerate() {
            if i == 8 || i == 13 || i == 18 || i == 23 {
                assert_eq!(*c, '-');
            } else {
                assert!(matches!(*c, '0'..='9' | 'a'..='f'));
            }
        }
        assert_eq!(id[14], '4');
        assert!(matches!(id[19], '8' | '9' | 'a' | 'b'));
        assert_eq!(run.wrapped_script, wrap_for_event(&run.exec_id, "return 1"));
    }
}

#[test]
fn runs_hold_the_prepared_script() {
    let run = EventRun::with_id("id".to_string(), " a; b ");
    assert_eq!(run.exec_id, "id");
    assert_eq!(run.wrapped_script, wrap_for_event("id", &prepare_script(" a; b ")));
    assert!(run.wrapped_script.contains("exec_id: 'id'"));
}

#[test]
fn results_are_delivered_once() {
    let mut pending = PendingResults::new();
    pending.insert("a".to_string(), 1);
    pending.insert("b".to_string(), 2);
    pending.insert("c".to_string(), 3);
    assert_eq!(pending.remove("a"), Some(1));
    assert_eq!(pending.remove("a"), None);
    assert_eq!(pending.remove("c"), Some(3));
    assert_eq!(pending.remove("b"), Some(2));
    assert_eq!(pending.remove("b"), None);
}

#[test]
fn the_last_to_wait_is_kept() {
    let mut pending = PendingResults::new();
    pending.insert("a".to_string(), 1);
    pending.insert("a".to_string(), 2);
    assert_eq!(pending.remove("a"), Some(2));
    assert_eq!(pending.remove("a"), None);
}

#[test]
fn taken_scripts_are_waited_for() {
    let mut pending = PendingResults::new();
    pending.insert("a".to_string(), 1);
    assert_eq!(
        step_run(&mut pending, "a", RunEvent::Evaluated(Ok(()))),
        RunAction::AwaitReply { timeout_secs: 5 }
    );
    assert_eq!(pending.remove("a"), Some(1));
}

#[test]
fn given_up_runs_are_taken_out() {
    let mut pending = PendingResults::new();
    pending.insert("a".to_string(), 1);
    pending.insert("b".to_string(), 2);
    pending.insert("c".to_string(), 3);
    assert_eq!(
        step_run(&mut pending, "a", RunEvent::Evaluated(Err("gone".to_string()))),
        RunAction::Finish {
            reply: failure("Failed to execute script: gone"),
            stop_listening: false,
        }
    );
    assert_eq!(
        step_run(&mut pending, "b", RunEvent::TimedOut),
        RunAction::Finish { reply: failure("Script execution timeout"), stop_listening: true }
    );
    assert_eq!(pending.remove("a"), None);
    assert_eq!(pending.remove("b"), None);
    assert_eq!(pending.remove("c"), Some(3));
}

#[test]
fn answered_runs_leave_the_waiting_alone() {
    let mut pending = PendingResults::new();
    pending.insert("a".to_string(), 1);
    assert_eq!(
        step_run(
            &mut pending,
            "a",
            RunEvent::Replied(ScriptReply::Success { data: Json::Null })
        ),
        RunAction::Finish {
            reply: ScriptReply::Success { data: Json::Null },
            stop_listening: true,
        }
    );
    assert_eq!(
        step_run(&mut pending, "a", RunEvent::ChannelClosed),
        RunAction::Finish {
            reply: failure("Script execution failed: channel closed"),
            stop_listening: true,
        }
    );
    assert_eq!(pending.remove("a"), Some(1));
}

#[test]
fn giving_up_an_unknown_run_changes_nothing() {
    let mut pending: PendingResults<i32> = PendingResults::new();
    pending.insert("a".to_string(), 1);
    step_run(&mut pending, "b", RunEvent::TimedOut);
    assert_eq!(pending.remove("a"), Some(1));
}

#[test]
fn runs_leave_no_trace() {
    let mut pending = PendingResults::new();
    pending.insert("other".to_string(), 1);
    pending.insert("a".to_string(), 2);
    assert_eq!(pending.remove("a"), Some(2));
    assert_eq!(pending.remove("a"), None);
    assert_eq!(pending.remove("other"), Some(1));
}

/// What a listener for `a` hands over of these events.
fn deliveries(pending: &mut PendingResults<i32>, events: &[&str]) -> Vec<(i32, ScriptReply)> {
    events
        .iter()
        .filter_map(|raw| hand_over(pending, "a", handle_event(raw, "a")))
        .collect()
}

#[test]
fn replies_go_to_whoever_waits() {
    let mut pending = PendingResults::new();
    pending.insert("a".to_string(), 1);
    pending.insert("b".to_string(), 2);
    assert_eq!(
        hand_over(&mut pending, "a", EventAction::Deliver(failure("bad"))),
        Some((1, failure("bad")))
    );
    assert_eq!(hand_over(&mut pending, "a", EventAction::Deliver(failure("again"))), None);
    assert_eq!(pending.remove("b"), Some(2));
}

#[test]
fn stray_events_change_nothing() {
    let result = r#"{"exec_id":"a","success":true,"data":true}"#;
    let mut plain = PendingResults::new();
    plain.insert("a".to_string(), 1);
    plain.insert("b".to_string(), 2);
    let expected = deliveries(&mut plain, &[result, result]);
    assert_eq!(expected, vec![(1, ScriptReply::Success { data: Json::Bool(true) })]);

    let strays = [
        "{",
        "[]",
        r#"{"success":true}"#,
        r#"{"exec_id":7,"success":true}"#,
        r#"{"exec_id":"b","success":true}"#,
    ];
    for stray in strays {
        for events in [
            [stray, result, result],
            [result, stray, result],
            [result, result, stray],
        ] {
            let mut pending = PendingResults::new();
            pending.insert("a".to_string(), 1);
            pending.insert("b".to_string(), 2);
            assert_eq!(deliveries(&mut pending, &events), expected);
            assert_eq!(pending.remove("a"), None);
            assert_eq!(pending.remove("b"), Some(2));
        }
    }
}

#[test]
fn stray_events_leave_the_run_waiting() {
    let mut pending = PendingResults::new();
    pending.insert("a".to_string(), 1);
    assert_eq!(hand_over(&mut pending, "a", EventAction::Ignore), None);
    assert_eq!(hand_over(&mut pending, "a", EventAction::Report("bad".to_string())), None);
    assert_eq!(pending.remove("a"), Some(1));
}

#[test]
fn late_results_reach_nobody() {
    let mut pending = PendingResults::new();
    pending.insert("a".to_string(), 1);
    step_run(&mut pending, "a", RunEvent::TimedOut);
    assert_eq!(hand_over(&mut pending, "a", EventAction::Deliver(failure("late"))), None);
}
