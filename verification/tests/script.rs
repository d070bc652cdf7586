use tauri_plugin_mcp_bridge::script::{
    prepare_script, prepare_script_for_native, wrap_for_event, EVENT_HEAD, EVENT_MIDDLE,
    EVENT_TAIL, NATIVE_HEAD, NATIVE_TAIL,
};

/// The body of a natively prepared script.
fn native_body(script: &str) -> String {
    let prepared = prepare_script_for_native(script);
    let inner = prepared.strip_prefix(NATIVE_HEAD).unwrap();
    inner.strip_suffix(NATIVE_TAIL).unwrap().to_string()
}

#[test]
fn expressions_are_returned() {
    assert_eq!(prepare_script("document.title"), "return document.title");
    assert_eq!(prepare_script("  1 + 1; \n"), "return 1 + 1;");
    assert_eq!(prepare_script("foo();"), "return foo();");
    assert_eq!(prepare_script("await fetch('/a');"), "return await fetch('/a');");
    assert_eq!(prepare_script("letter"), "return letter");
}

#[test]
fn expressions_with_semicolons_inside_are_returned() {
    assert_eq!(prepare_script("(() => { a; b })()"), "return (() => { a; b })()");
    assert_eq!(prepare_script("JSON.stringify(a); b"), "return JSON.stringify(a); b");
    assert_eq!(prepare_script("{ a; b }"), "return { a; b }");
    assert_eq!(prepare_script("[a; b]"), "return [a; b]");
    assert_eq!(prepare_script("await a; b"), "return await a; b");
    assert_eq!(
        prepare_script("function () { a; b }.bind(c)()"),
        "return function () { a; b }.bind(c)()"
    );
}

#[test]
fn statements_are_left_as_they_are() {
    for script in [
        "a; b",
        "const x = 1",
        "let x = 1;",
        "var x = 1",
        "if (a) b",
        "for (;;) {}",
        "while (a) b",
        "function f() {}",
        "class A {}",
        "try { a } catch (e) {}",
    ] {
        let padded = format!("  {script}\n");
        assert_eq!(prepare_script(&padded), padded);
    }
}

#[test]
fn explicit_return_is_left_as_it_is() {
    assert_eq!(prepare_script(" return 5 "), " return 5 ");
    assert_eq!(prepare_script("returned"), "return returned");
}

#[test]
fn preparing_twice_changes_nothing() {
    for script in ["a", " a; ", "a; b", "a; b;", "a; ;", "a; let b;", "return a", "(a; b)"] {
        let once = prepare_script(script);
        assert_eq!(prepare_script(&once), once);
        let body = native_body(script);
        assert_eq!(native_body(&body), body);
    }
}

#[test]
fn blank_scripts() {
    assert_eq!(prepare_script(" \n"), "return ");
    assert_eq!(native_body(" \n"), "return ");
    assert_eq!(prepare_script(&prepare_script("")), "return return");
}

#[test]
fn unicode_white_space_is_trimmed() {
    assert_eq!(prepare_script("\u{3000}\u{a0}\u{2003}a\u{2028}\u{85}\t"), "return a");
    assert_eq!(prepare_script("\u{200b}a"), "return \u{200b}a");
    for code in 0..=0x10ffffu32 {
        if let Some(c) = char::from_u32(code) {
            let script = format!("{c}a");
            let expected = format!("return {}", script.trim());
            if c.is_whitespace() || code < 0x300 {
                if c == '(' || c == '{' || c == '[' || c == ';' {
                    continue;
                }
                assert_eq!(prepare_script(&script), expected);
            }
        }
    }
}

#[test]
fn native_expressions_are_returned() {
    assert_eq!(native_body("document.title"), "return document.title");
    assert_eq!(native_body(" foo(); "), "return foo();");
    assert_eq!(native_body("await a"), "return await a");
}

#[test]
fn native_last_statement_is_returned() {
    assert_eq!(
        native_body("var el = document.querySelector('body'); el.textContent"),
        "var el = document.querySelector('body'); return el.textContent"
    );
    assert_eq!(native_body("a;b"), "a; return b");
    assert_eq!(native_body("é; ü"), "é; return ü");
}

#[test]
fn native_last_statement_is_returned_with_its_semicolon() {
    assert_eq!(native_body(" a; b; "), "a; return b;");
    assert_eq!(native_body("var x = 1; x;"), "var x = 1; return x;");
    assert!(prepare_script_for_native("var x = 1; x;")
        .contains("var __result = (function() { var x = 1; return x; })();"));
    assert_eq!(native_body("a;\n  b ;"), "a; return b ;");
}

#[test]
fn native_statements_that_are_left_as_they_are() {
    assert_eq!(native_body("a;;"), "a;;");
    assert_eq!(native_body("a; ;"), "a; ;");
    assert_eq!(native_body("a(); var b = 2;"), "a(); var b = 2;");
    assert_eq!(native_body("a; return b;"), "a; return b;");
    assert_eq!(native_body("return 5;"), "return 5;");
    assert_eq!(native_body("let x = 1;"), "let x = 1;");
    assert_eq!(native_body("const x = 1"), "const x = 1");
    assert_eq!(native_body("return 5"), "return 5");
    assert_eq!(native_body("a; return b"), "a; return b");
}

#[test]
fn native_semicolons_count_within_brackets_and_quotes() {
    assert_eq!(native_body("for (a; b; c) d"), "for (a; b; return c) d");
    assert_eq!(native_body("for (a; b; c) d;"), "for (a; b; return c) d;");
    assert_eq!(native_body("f('a;b');"), "f('a; return b');");
}

#[test]
fn native_wrapper() {
    let expected = r#"(function() {
            try {
                var __result = (function() { return 1 })();
                if (__result !== undefined && __result !== null && typeof __result.then === 'function') {
                    return JSON.stringify({ __error: "Async scripts not supported in native eval. Wrap with await." });
                }
                return JSON.stringify(__result === undefined ? null : __result);
            } catch (e) {
                return JSON.stringify({ __error: e.message || String(e) });
            }
        })()"#;
    assert_eq!(prepare_script_for_native("1"), expected);
}

#[test]
fn native_wrapper_ignores_outer_space() {
    assert_eq!(prepare_script_for_native("\n 1 "), prepare_script_for_native("1"));
}

#[test]
fn event_wrapper() {
    let wrapped = wrap_for_event("some-id", "return 1");
    assert_eq!(
        wrapped,
        format!("{EVENT_HEAD}some-id{EVENT_MIDDLE}return 1{EVENT_TAIL}")
    );
    assert!(wrapped.starts_with("\n        (function() {\n            function __sendResult("));
    assert!(wrapped.contains("exec_id: 'some-id',\n                            success: success,"));
    assert!(wrapped.contains(
        "const __executeScript = async () => {\n                        return 1\n                    };"
    ));
    assert!(wrapped.ends_with("            });\n        })();\n        "));
}
