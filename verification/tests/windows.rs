use tauri_plugin_mcp_bridge::windows::{list_windows, WebviewFacts, WindowInfo};

fn facts(label: &str, title: &str) -> WebviewFacts {
    WebviewFacts {
        label: label.to_string(),
        title: Some(title.to_string()),
        url: None,
        focused: Some(true),
        visible: None,
    }
}

fn labels(list: &[WindowInfo]) -> Vec<&str> {
    list.iter().map(|info| info.label.as_str()).collect()
}

#[test]
fn facts_are_taken_over() {
    let list = list_windows(
        vec![WebviewFacts {
            label: "main".to_string(),
            title: None,
            url: Some("tauri://localhost".to_string()),
            focused: Some(false),
            visible: Some(true),
        }],
        vec![facts("side", "Side")],
    );
    assert_eq!(
        list,
        vec![
            WindowInfo {
                label: "main".to_string(),
                title: None,
                url: Some("tauri://localhost".to_string()),
                focused: false,
                visible: true,
                is_main: true,
            },
            WindowInfo {
                label: "side".to_string(),
                title: Some("Side".to_string()),
                url: None,
                focused: true,
                visible: false,
                is_main: false,
            },
        ]
    );
}

#[test]
fn main_comes_first_then_by_label() {
    let list = list_windows(
        vec![facts("zoo", ""), facts("main", ""), facts("abc", "")],
        vec![facts("ab", ""), facts("B", ""), facts("é", ""), facts("mainly", "")],
    );
    assert_eq!(labels(&list), vec!["main", "B", "ab", "abc", "mainly", "zoo", "é"]);
}

#[test]
fn webviews_of_windows_are_listed_once() {
    let list = list_windows(
        vec![facts("main", "window"), facts("a", "window")],
        vec![facts("a", "webview"), facts("main", "webview"), facts("b", "webview")],
    );
    assert_eq!(labels(&list), vec!["main", "a", "b"]);
    assert_eq!(list[0].title.as_deref(), Some("window"));
    assert_eq!(list[1].title.as_deref(), Some("window"));
    assert_eq!(list[2].title.as_deref(), Some("webview"));
}

#[test]
fn order_of_discovery_does_not_show() {
    let names = ["main", "d", "a", "c"];
    let expected = list_windows(
        names.iter().map(|n| facts(n, "w")).collect(),
        names.iter().map(|n| facts(n, "v")).chain([facts("b", "v")]).collect(),
    );
    for shift in 1..4 {
        let mut turned = names;
        turned.rotate_left(shift);
        let list = list_windows(
            turned.iter().map(|n| facts(n, "w")).collect(),
            [facts("b", "v")].into_iter().chain(turned.iter().rev().map(|n| facts(n, "v"))).collect(),
        );
        assert_eq!(list, expected);
    }
}

#[test]
fn labels_go_by_code_point() {
    let mut names = vec!["\u{ffff}", "\u{10000}", "z", "", "Z", "za", "\u{7f}", "\u{80}"];
    let list = list_windows(names.iter().map(|n| facts(n, "")).collect(), Vec::new());
    names.sort();
    assert_eq!(labels(&list), names);
}

#[test]
fn nothing_to_list() {
    assert_eq!(list_windows(Vec::new(), Vec::new()), Vec::new());
}
