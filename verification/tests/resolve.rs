use tauri_plugin_mcp_bridge::resolve::{
    resolve_window, resolve_window_with_context, Labelled, ResolvedWebview, ResolvedWindow,
};
use tauri_plugin_mcp_bridge::windows::{list_windows, WebviewFacts};

fn entries(labels: &[&str], base: i32) -> Vec<Labelled<i32>> {
    labels
        .iter()
        .enumerate()
        .map(|(i, label)| Labelled { label: label.to_string(), handle: base + i as i32 })
        .collect()
}

fn resolve(
    windows: &[&str],
    webviews: &[&str],
    label: Option<&str>,
) -> Result<ResolvedWindow<i32, i32>, String> {
    resolve_window_with_context(
        entries(windows, 100),
        entries(webviews, 200),
        label.map(|l| l.to_string()),
    )
}

/// The handle that was found.
fn handle(found: &ResolvedWindow<i32, i32>) -> i32 {
    match &found.window {
        ResolvedWebview::WebviewWindow(w) => w.handle,
        ResolvedWebview::Webview(v) => v.handle,
    }
}

#[test]
fn named_window_is_found() {
    let found = resolve(&["main", "a"], &["main", "a", "b"], Some("a")).unwrap();
    assert_eq!(handle(&found), 101);
    assert_eq!(found.window.label(), "a");
    assert_eq!(found.context.window_label, "a");
    assert_eq!(found.context.total_windows, 3);
    assert_eq!(found.context.warning, None);
}

#[test]
fn named_webview_is_found() {
    let found = resolve(&["main"], &["main", "b"], Some("b")).unwrap();
    assert_eq!(handle(&found), 201);
    assert_eq!(found.window.label(), "b");
    assert_eq!(found.context.warning, None);
}

#[test]
fn named_but_missing() {
    let message = resolve(&["main"], &["main"], Some("x")).err();
    assert_eq!(message.as_deref(), Some("Window 'x' not found"));
}

#[test]
fn main_is_the_default() {
    let found = resolve(&["main"], &[], None).unwrap();
    assert_eq!(handle(&found), 100);
    assert_eq!(found.context.total_windows, 1);
    assert_eq!(found.context.warning, None);
}

#[test]
fn default_among_several_is_warned_of() {
    let found = resolve(&["a", "main"], &["b", "main", "a"], None).unwrap();
    assert_eq!(handle(&found), 101);
    assert_eq!(
        found.context.warning.as_deref(),
        Some(
            "Multiple webviews detected (3 total). Using 'main'. Use windowId parameter to \
             target a specific webview. Available: b, main, a"
        )
    );
}

#[test]
fn default_webview_is_found() {
    let found = resolve(&["a"], &["main"], None).unwrap();
    assert_eq!(handle(&found), 200);
    assert!(found.context.warning.is_some());
}

#[test]
fn fallback_prefers_webviews() {
    let found = resolve(&["a"], &["b", "c"], None).unwrap();
    assert_eq!(handle(&found), 200);
    assert_eq!(found.context.window_label, "b");
    assert_eq!(
        found.context.warning.as_deref(),
        Some(
            "Multiple webviews detected (3 total). Using 'b'. Use windowId parameter to \
             target a specific webview. Available: b, c, a"
        )
    );
}

#[test]
fn fallback_to_a_window() {
    let found = resolve(&["a", "b"], &[], None).unwrap();
    assert_eq!(handle(&found), 100);
    assert_eq!(
        found.context.warning.as_deref(),
        Some(
            "Multiple webviews detected (2 total). Using 'a'. Use windowId parameter to \
             target a specific webview. Available: a, b"
        )
    );
}

#[test]
fn lone_windows_are_not_warned_of() {
    for (windows, webviews, expected) in [
        (vec!["a"], vec![], 100),
        (vec![], vec!["a"], 200),
        (vec!["a"], vec!["a"], 200),
        (vec!["main"], vec!["main"], 100),
        (vec![], vec!["main"], 200),
    ] {
        let found = resolve(&windows, &webviews, None).unwrap();
        assert_eq!(handle(&found), expected);
        assert_eq!(found.context.total_windows, 1);
        assert_eq!(found.context.warning, None);
    }
}

#[test]
fn windows_in_both_places_count_once() {
    let found = resolve(&["main", "a"], &["a", "main"], None).unwrap();
    assert_eq!(found.context.total_windows, 2);
    assert_eq!(
        found.context.warning.as_deref(),
        Some(
            "Multiple webviews detected (2 total). Using 'main'. Use windowId parameter to \
             target a specific webview. Available: a, main"
        )
    );
}

#[test]
fn total_is_the_length_of_a_listing() {
    let facts = |labels: &[&str]| -> Vec<WebviewFacts> {
        labels
            .iter()
            .map(|label| WebviewFacts {
                label: label.to_string(),
                title: None,
                url: None,
                focused: None,
                visible: None,
            })
            .collect()
    };
    for (windows, webviews) in [
        (vec!["main"], vec!["main"]),
        (vec!["a", "main"], vec!["main", "b", "a"]),
        (vec!["a"], vec!["b", "c"]),
        (vec!["a", "b"], vec![]),
    ] {
        let found = resolve(&windows, &webviews, None).unwrap();
        let list = list_windows(facts(&windows), facts(&webviews));
        assert_eq!(found.context.total_windows, list.len());
    }
}

#[test]
fn nothing_to_fall_back_to() {
    assert_eq!(resolve(&[], &[], None).err().as_deref(), Some("Window 'main' not found"));
}

#[test]
fn large_totals_are_written_in_decimal() {
    let names: Vec<String> = (0..1207).map(|i| format!("w{i}")).collect();
    let labels: Vec<&str> = names.iter().map(|n| n.as_str()).collect();
    let warning = resolve(&labels, &[], None).unwrap().context.warning.unwrap();
    assert!(warning.starts_with("Multiple webviews detected (1207 total). Using 'w0'."));
    assert!(warning.ends_with("w1205, w1206"));
}

#[test]
fn windows_out_of_resolved_webviews() {
    let window = resolve(&["a"], &[], Some("a")).unwrap().window;
    assert_eq!(window.as_webview_window(), Some(&100));
    assert_eq!(window.into_webview_window(), Some(100));
    let webview = resolve(&[], &["a"], Some("a")).unwrap().window;
    assert_eq!(webview.as_webview_window(), None);
    assert_eq!(webview.into_webview_window(), None);
}

#[test]
fn window_only_resolution() {
    assert_eq!(resolve_window(entries(&["a", "main"], 100), None), Ok(101));
    assert_eq!(resolve_window(entries(&["a", "b"], 100), None), Ok(100));
    assert_eq!(resolve_window(entries(&["a", "b"], 100), Some("b".to_string())), Ok(101));
    assert_eq!(
        resolve_window(entries(&["a"], 100), Some("b".to_string())),
        Err("Window 'b' not found".to_string())
    );
    assert_eq!(resolve_window(entries(&[], 100), None), Err("Window 'main' not found".to_string()));
}

#[test]
fn resolvers_agree_on_windows() {
    for (windows, label) in [
        (vec!["a", "main"], None),
        (vec!["a", "b"], None),
        (vec!["a", "b"], Some("b")),
    ] {
        let found = resolve(&windows, &[], label).unwrap();
        let only = resolve_window(entries(&windows, 100), label.map(|l| l.to_string())).unwrap();
        assert_eq!(found.window.into_webview_window(), Some(only));
    }
}
