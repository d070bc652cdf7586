//! Preparing a script for the webview.

use crate::text;
use vstd::prelude::*;

verus! {

/// What stands before the body of a script that is evaluated natively. The
/// wrapper is synchronous, since native evaluation does not await promises.
pub const NATIVE_HEAD: &'static str = "(function() {
            try {
                var __result = (function() { ";

/// What stands after the body of a script that is evaluated natively. The
/// wrapper hands back JSON text in every case.
pub const NATIVE_TAIL: &'static str = r#" })();
                if (__result !== undefined && __result !== null && typeof __result.then === 'function') {
                    return JSON.stringify({ __error: "Async scripts not supported in native eval. Wrap with await." });
                }
                return JSON.stringify(__result === undefined ? null : __result);
            } catch (e) {
                return JSON.stringify({ __error: e.message || String(e) });
            }
        })()"#;

/// What stands before the execution id of a script that reports by event.
pub const EVENT_HEAD: &'static str = "
        (function() {
            function __sendResult(success, data, error) {
                try {
                    if (window.__TAURI__ && window.__TAURI__.event) {
                        window.__TAURI__.event.emit('__script_result', {
                            exec_id: '";

/// What stands between the execution id and the body of a script that reports
/// by event.
pub const EVENT_MIDDLE: &'static str = "',
                            success: success,
                            data: data,
                            error: error
                        });
                    } else {
                        console.error('[MCP] __TAURI__ not available, cannot send result');
                    }
                } catch (e) {
                    console.error('[MCP] Failed to emit result:', e);
                }
            }

            (async () => {
                try {
                    const __executeScript = async () => {
                        ";

/// What stands after the body of a script that reports by event.
pub const EVENT_TAIL: &'static str = "
                    };
                    const __result = await __executeScript();
                    __sendResult(true, __result !== undefined ? __result : null, null);
                } catch (error) {
                    __sendResult(false, null, error.message || String(error));
                }
            })().catch(function(error) {
                __sendResult(false, null, error.message || String(error));
            });
        })();
        ";

/// Whether a `;` separates statements in `t`. One at the very end does not.
pub open spec fn separates_statements(t: Seq<char>) -> bool {
    exists|i: int| 0 <= i < t.len() - 1 && #[trigger] t[i] == ';'
}

/// Whether `t` begins with a keyword that opens a statement.
pub open spec fn opens_statement(t: Seq<char>) -> bool {
    ||| "const "@.is_prefix_of(t)
    ||| "let "@.is_prefix_of(t)
    ||| "var "@.is_prefix_of(t)
    ||| "if "@.is_prefix_of(t)
    ||| "for "@.is_prefix_of(t)
    ||| "while "@.is_prefix_of(t)
    ||| "function "@.is_prefix_of(t)
    ||| "class "@.is_prefix_of(t)
    ||| "try "@.is_prefix_of(t)
}

/// Whether `t` has the look of one expression, whatever semicolons it holds.
pub open spec fn is_single_expression(t: Seq<char>) -> bool {
    ||| "await "@.is_prefix_of(t)
    ||| "("@.is_prefix_of(t)
    ||| "JSON."@.is_prefix_of(t)
    ||| "{"@.is_prefix_of(t)
    ||| "["@.is_prefix_of(t)
    ||| ")()"@.is_suffix_of(t)
}

/// Whether `t` already begins by returning a value.
pub open spec fn begins_with_return(t: Seq<char>) -> bool {
    "return "@.is_prefix_of(t)
}

/// The position of the last `;` of `t`, or -1.
pub open spec fn last_semicolon(t: Seq<char>) -> int
    decreases t.len(),
{
    if t.len() == 0 {
        -1
    } else if t.last() == ';' {
        t.len() - 1
    } else {
        last_semicolon(t.drop_last())
    }
}

/// A script as the event roundtrip runs it: an expression is returned, all else
/// is left as it came.
pub open spec fn prepared_script(script: Seq<char>) -> Seq<char> {
    let t = text::trimmed(script);
    if !begins_with_return(t) && (is_single_expression(t) || !(separates_statements(t)
        || opens_statement(t))) {
        "return "@ + t
    } else {
        script
    }
}

/// Whether `t` ends in a `;`.
pub open spec fn ends_in_semicolon(t: Seq<char>) -> bool {
    t.len() > 0 && t.last() == ';'
}

/// `t` without the one `;` that may stand at its very end.
pub open spec fn statements(t: Seq<char>) -> Seq<char> {
    if ends_in_semicolon(t) {
        t.drop_last()
    } else {
        t
    }
}

/// The body of a natively evaluated script: an expression is returned, and of
/// several statements the last one, with or without a `;` behind it.
///
/// The script stays as it is where there is no last statement to single out,
/// where it is empty or a `return` already, and where it ends in a `;` and opens
/// with a keyword, so that it has no value.
///
/// Semicolons are taken as text: one within brackets or quotes counts like any
/// other.
pub open spec fn native_body(script: Seq<char>) -> Seq<char> {
    let t = text::trimmed(script);
    let k = last_semicolon(statements(t));
    let last = text::trimmed(t.skip(k + 1));
    if !(separates_statements(t) || opens_statement(t) || begins_with_return(t)) {
        "return "@ + t
    } else if k < 0 || last == ";"@ || begins_with_return(last) || (ends_in_semicolon(t)
        && opens_statement(last)) {
        t
    } else {
        t.take(k + 1) + " return "@ + last
    }
}

/// A script as it is evaluated natively.
pub open spec fn native_script(script: Seq<char>) -> Seq<char> {
    NATIVE_HEAD@ + native_body(script) + NATIVE_TAIL@
}

/// A script that runs `body` and reports its result by an event that carries
/// `exec_id`.
pub open spec fn event_script(exec_id: Seq<char>, body: Seq<char>) -> Seq<char> {
    EVENT_HEAD@ + exec_id + EVENT_MIDDLE@ + body + EVENT_TAIL@
}

/// Whether a `;` separates statements in `chars`.
fn has_separator(chars: &Vec<char>) -> (r: bool)
    ensures
        r == separates_statements(chars@),
{
    let mut i: usize = 0;
    while i < chars.len()
        invariant
            i <= chars.len(),
            forall|j: int| 0 <= j < i && j < chars@.len() - 1 ==> chars@[j] != ';',
        decreases chars.len() - i,
    {
        if chars[i] == ';' && i < chars.len() - 1 {
            return true;
        }
        i = i + 1;
    }
    false
}

/// Whether `chars` begins with a keyword that opens a statement.
fn has_keyword(chars: &Vec<char>) -> (r: bool)
    ensures
        r == opens_statement(chars@),
{
    text::begins_with(chars, "const ") || text::begins_with(chars, "let ") || text::begins_with(
        chars,
        "var ",
    ) || text::begins_with(chars, "if ") || text::begins_with(chars, "for ") || text::begins_with(
        chars,
        "while ",
    ) || text::begins_with(chars, "function ") || text::begins_with(chars, "class ")
        || text::begins_with(chars, "try ")
}

/// Whether `chars` has the look of one expression.
fn has_expression_shape(chars: &Vec<char>) -> (r: bool)
    ensures
        r == is_single_expression(chars@),
{
    text::begins_with(chars, "await ") || text::begins_with(chars, "(") || text::begins_with(
        chars,
        "JSON.",
    ) || text::begins_with(chars, "{") || text::begins_with(chars, "[") || text::finishes_with(
        chars,
        ")()",
    )
}

/// Whether `chars` ends in a `;`.
fn has_final_semicolon(chars: &Vec<char>) -> (r: bool)
    ensures
        r == ends_in_semicolon(chars@),
{
    chars.len() > 0 && chars[chars.len() - 1] == ';'
}

/// How many characters of `chars` stand before its last statement.
fn length_before_last_statement(chars: &Vec<char>) -> (n: usize)
    ensures
        n <= chars.len(),
        n == last_semicolon(statements(chars@)) + 1,
{
    let mut n: usize = chars.len();
    if has_final_semicolon(chars) {
        n = n - 1;
    }
    assert(chars@.take(n as int) == statements(chars@));
    while n > 0 && chars[n - 1] != ';'
        invariant
            n <= chars.len(),
            last_semicolon(statements(chars@)) == last_semicolon(chars@.take(n as int)),
        decreases n,
    {
        assert(chars@.take(n as int).drop_last() == chars@.take(n - 1));
        n = n - 1;
    }
    n
}

/// Whether `chars` is a `;` and nothing else.
fn is_semicolon(chars: &Vec<char>) -> (r: bool)
    ensures
        r == (chars@ == ";"@),
{
    proof {
        reveal_strlit(";");
    }
    let r = chars.len() == 1 && chars[0] == ';';
    assert(r ==> chars@ == ";"@);
    r
}

/// Prepares a script for the event roundtrip, by adding a `return` if one is
/// needed.
pub fn prepare_script(script: &str) -> (prepared: String)
    ensures
        prepared@ == prepared_script(script@),
{
    let trimmed = text::trim(script);
    let chars = text::chars_of(trimmed);
    let needs_return = !text::begins_with(&chars, "return ");
    let is_multi_statement = has_separator(&chars) || has_keyword(&chars);
    if needs_return && (has_expression_shape(&chars) || !is_multi_statement) {
        let mut prepared = "return ".to_owned();
        prepared.append(trimmed);
        prepared
    } else {
        script.to_owned()
    }
}

/// Prepares a script for native evaluation.
///
/// The script is wrapped so that it hands back JSON text: of its value, of
/// `null` where it has none, or of an object with the key `__error` where it
/// throws or gives a promise.
pub fn prepare_script_for_native(script: &str) -> (prepared: String)
    ensures
        prepared@ == native_script(script@),
{
    let trimmed = text::trim(script);
    let chars = text::chars_of(trimmed);
    let is_multi_statement = has_separator(&chars) || has_keyword(&chars) || text::begins_with(
        &chars,
        "return ",
    );
    let mut prepared = NATIVE_HEAD.to_owned();
    if is_multi_statement {
        let n: usize = length_before_last_statement(&chars);
        let last = text::trim(trimmed.substring_char(n, chars.len()));
        let last_chars = text::chars_of(last);
        assert(trimmed@.subrange(n as int, chars@.len() as int) == trimmed@.skip(n as int));
        if n == 0 || is_semicolon(&last_chars) || text::begins_with(&last_chars, "return ") || (
        has_final_semicolon(&chars) && has_keyword(&last_chars)) {
            prepared.append(trimmed);
        } else {
            prepared.append(trimmed.substring_char(0, n));
            prepared.append(" return ");
            prepared.append(last);
            assert(prepared@ == NATIVE_HEAD@ + (trimmed@.take(n as int) + " return "@ + last@));
        }
    } else {
        prepared.append("return ");
        prepared.append(trimmed);
        assert(prepared@ == NATIVE_HEAD@ + ("return "@ + trimmed@));
    }
    prepared.append(NATIVE_TAIL);
    prepared
}

/// Wraps a prepared script so that it reports its result by an event.
pub fn wrap_for_event(exec_id: &str, prepared: &str) -> (wrapped: String)
    ensures
        wrapped@ == event_script(exec_id@, prepared@),
{
    let mut wrapped = EVENT_HEAD.to_owned();
    wrapped.append(exec_id);
    wrapped.append(EVENT_MIDDLE);
    wrapped.append(prepared);
    wrapped.append(EVENT_TAIL);
    wrapped
}

/// A trimmed script behind a `return` is trimmed, and begins with that `return`.
proof fn lemma_returned(t: Seq<char>)
    requires
        t.len() > 0,
        !text::is_white_space(t.last()),
    ensures
        text::trimmed("return "@ + t) == "return "@ + t,
        begins_with_return("return "@ + t),
{
    reveal_strlit("return ");
    let r = "return "@ + t;
    assert(r.first() == 'r');
    assert(r.last() == t.last());
    text::law_trimmed_fixed(r);
    assert(r.subrange(0, "return "@.len() as int) == "return "@);
}

/// `last_semicolon` is the position of a `;` that no other follows.
proof fn lemma_last_semicolon(t: Seq<char>)
    ensures
        -1 <= last_semicolon(t) < t.len(),
        last_semicolon(t) >= 0 ==> t[last_semicolon(t)] == ';',
        forall|i: int| last_semicolon(t) < i < t.len() ==> #[trigger] t[i] != ';',
    decreases t.len(),
{
    if t.len() > 0 && t.last() != ';' {
        lemma_last_semicolon(t.drop_last());
        assert forall|i: int| last_semicolon(t) < i < t.len() implies #[trigger] t[i] != ';' by {
            if i < t.len() - 1 {
                assert(t.drop_last()[i] == t[i]);
            }
        }
    }
}

/// A `;` that no other follows is where `last_semicolon` points.
proof fn lemma_last_semicolon_found(t: Seq<char>, k: int)
    requires
        0 <= k < t.len(),
        t[k] == ';',
        forall|i: int| k < i < t.len() ==> #[trigger] t[i] != ';',
    ensures
        last_semicolon(t) == k,
{
    lemma_last_semicolon(t);
}

/// Preparing a script for the event roundtrip a second time changes nothing,
/// provided that there is a script at all.
pub proof fn law_prepared_script_idempotent(script: Seq<char>)
    requires
        text::trimmed(script).len() > 0,
    ensures
        prepared_script(prepared_script(script)) == prepared_script(script),
{
    text::law_trimmed_ends(script);
    lemma_returned(text::trimmed(script));
}

/// The white space around a script does not reach native evaluation.
pub proof fn law_native_script_ignores_outer_space(script: Seq<char>)
    ensures
        native_script(text::trimmed(script)) == native_script(script),
{
    text::law_trimmed_idempotent(script);
}

/// Giving a script's native body the value it returns a second time changes
/// nothing, provided that there is a script at all.
pub proof fn law_native_body_idempotent(script: Seq<char>)
    requires
        text::trimmed(script).len() > 0,
    ensures
        native_body(native_body(script)) == native_body(script),
{
    let t = text::trimmed(script);
    let k = last_semicolon(statements(t));
    let last = text::trimmed(t.skip(k + 1));
    text::law_trimmed_ends(script);
    text::law_trimmed_idempotent(script);
    lemma_last_semicolon(statements(t));
    if !(separates_statements(t) || opens_statement(t) || begins_with_return(t)) {
        let b = "return "@ + t;
        lemma_returned(t);
        lemma_last_semicolon(statements(b));
        let j = last_semicolon(statements(b));
        reveal_strlit("return ");
        if j >= 0 {
            // The only `;` that `t` can hold is its last character.
            assert(b[j] == ';');
            assert(t[j - 7] == ';');
        }
    } else if native_body(script) != t {
        let b = t.take(k + 1) + " return "@ + last;
        let rest = t.skip(k + 1);
        reveal_strlit(" return ");
        reveal_strlit("return ");
        text::lemma_trimmed_is_suffix(rest);
        assert(b.first() == t.first());
        assert(b.last() == last.last() == t.last());
        text::law_trimmed_fixed(b);
        assert(b[k] == ';');
        assert forall|i: int| k < i < statements(b).len() implies #[trigger] statements(b)[i]
            != ';' by {
            if i >= k + 9 {
                let m = rest.len() - last.len() + (i - k - 9);
                assert(b[i] == last[i - k - 9] == rest[m] == t[k + 1 + m]);
                assert(statements(t)[k + 1 + m] == t[k + 1 + m]);
            } else {
                assert(b[i] == " return "@[i - k - 1]);
            }
        }
        lemma_last_semicolon_found(statements(b), k);
        assert(separates_statements(b));
        let returned = b.skip(k + 1);
        assert(returned == " return "@ + last);
        assert(returned.drop_first() == "return "@ + last);
        lemma_returned(last);
        assert(text::trimmed_start(returned) == text::trimmed_start(returned.drop_first()));
        assert(text::trimmed(returned) == "return "@ + last);
    }
}

} // verus!
