//! Laws of preparing a script.
//!
//! Each is said of a script that stands between two stretches of white space,
//! either of which may be empty.

use crate::laws::text;
use crate::roundtrip::EventRun;
use crate::script;
use vstd::prelude::*;

verus! {

/// The words that a statement opens with, and an expression does not.
pub open spec fn statement_words() -> Seq<Seq<char>> {
    seq![
        "const "@,
        "let "@,
        "var "@,
        "if "@,
        "for "@,
        "while "@,
        "function "@,
        "class "@,
        "try "@,
    ]
}

/// What a script opens with that is one expression for certain.
pub open spec fn expression_openings() -> Seq<Seq<char>> {
    seq!["await "@, "("@, "JSON."@, "{"@, "["@]
}

/// Whether `t` opens with one of `words`.
pub open spec fn opens_with_one_of(t: Seq<char>, words: Seq<Seq<char>>) -> bool {
    exists|i: int| 0 <= i < words.len() && (#[trigger] words[i]).is_prefix_of(t)
}

/// Whether `t` has the look of one expression.
pub open spec fn looks_like_expression(t: Seq<char>) -> bool {
    opens_with_one_of(t, expression_openings()) || ")()"@.is_suffix_of(t)
}

/// Whether no `;` is in `t`.
pub open spec fn has_no_semicolon(t: Seq<char>) -> bool {
    forall|i: int| 0 <= i < t.len() ==> #[trigger] t[i] != ';'
}

/// Whether no `;` is in `t` but perhaps as its last character.
pub open spec fn has_no_inner_semicolon(t: Seq<char>) -> bool {
    forall|i: int| 0 <= i < t.len() - 1 ==> #[trigger] t[i] != ';'
}

/// The script that is handed to native evaluation for the function body `body`.
pub open spec fn evaluates(prepared: Seq<char>, body: Seq<char>) -> bool {
    prepared == script::NATIVE_HEAD@ + body + script::NATIVE_TAIL@
}

/// The words that a statement opens with are told apart rightly.
proof fn lemma_statement_words(t: Seq<char>)
    ensures
        opens_with_one_of(t, statement_words()) <==> script::opens_statement(t),
{
    let words = statement_words();
    assert(words.len() == 9);
    if script::opens_statement(t) {
        let i: int = if words[0].is_prefix_of(t) {
            0
        } else if words[1].is_prefix_of(t) {
            1
        } else if words[2].is_prefix_of(t) {
            2
        } else if words[3].is_prefix_of(t) {
            3
        } else if words[4].is_prefix_of(t) {
            4
        } else if words[5].is_prefix_of(t) {
            5
        } else if words[6].is_prefix_of(t) {
            6
        } else if words[7].is_prefix_of(t) {
            7
        } else {
            8
        };
        assert(words[i].is_prefix_of(t));
    }
}

/// What looks like one expression is told apart rightly.
proof fn lemma_looks_like_expression(t: Seq<char>)
    ensures
        looks_like_expression(t) <==> script::is_single_expression(t),
{
    let words = expression_openings();
    assert(words.len() == 5);
    if script::is_single_expression(t) && !(")()"@.is_suffix_of(t)) {
        let i: int = if words[0].is_prefix_of(t) {
            0
        } else if words[1].is_prefix_of(t) {
            1
        } else if words[2].is_prefix_of(t) {
            2
        } else if words[3].is_prefix_of(t) {
            3
        } else {
            4
        };
        assert(words[i].is_prefix_of(t));
    }
}

/// A script without a `;` before its last character that opens with no statement's
/// word and does not return already is an expression: its value is returned,
/// whatever it ends in.
pub proof fn law_expression_is_returned(
    source: &str,
    before: Seq<char>,
    t: Seq<char>,
    after: Seq<char>,
    prepared: String,
)
    requires
        call_ensures(script::prepare_script, (source,), prepared),
        text::is_padded(source@, before, t, after),
        has_no_inner_semicolon(t),
        !opens_with_one_of(t, statement_words()),
        !"return "@.is_prefix_of(t),
    ensures
        prepared@ == "return "@ + t,
{
    text::law_trimmed_takes_padding_away(source@, before, t, after);
    lemma_statement_words(t);
}

/// A script that looks like one expression and does not return already has its
/// value returned, whatever semicolons it holds and whatever else it opens with.
pub proof fn law_expression_look_is_returned(
    source: &str,
    before: Seq<char>,
    t: Seq<char>,
    after: Seq<char>,
    prepared: String,
)
    requires
        call_ensures(script::prepare_script, (source,), prepared),
        text::is_padded(source@, before, t, after),
        looks_like_expression(t),
        !"return "@.is_prefix_of(t),
    ensures
        prepared@ == "return "@ + t,
{
    text::law_trimmed_takes_padding_away(source@, before, t, after);
    lemma_looks_like_expression(t);
}

/// A script that returns already is left alone, the white space around it too.
pub proof fn law_return_is_left_alone(
    source: &str,
    before: Seq<char>,
    t: Seq<char>,
    after: Seq<char>,
    prepared: String,
)
    requires
        call_ensures(script::prepare_script, (source,), prepared),
        text::is_padded(source@, before, t, after),
        "return "@.is_prefix_of(t),
    ensures
        prepared@ == source@,
{
    text::law_trimmed_takes_padding_away(source@, before, t, after);
}

/// A script of statements is left alone, the white space around it too: one that
/// opens with a statement's word, or that holds a `;` before its last character,
/// and does not look like one expression.
pub proof fn law_statements_are_left_alone(
    source: &str,
    before: Seq<char>,
    t: Seq<char>,
    after: Seq<char>,
    prepared: String,
)
    requires
        call_ensures(script::prepare_script, (source,), prepared),
        text::is_padded(source@, before, t, after),
        opens_with_one_of(t, statement_words()) || !has_no_inner_semicolon(t),
        !looks_like_expression(t),
    ensures
        prepared@ == source@,
{
    text::law_trimmed_takes_padding_away(source@, before, t, after);
    lemma_statement_words(t);
    lemma_looks_like_expression(t);
}

/// A script without a `;` before its last character that opens with no statement's
/// word and does not return already is evaluated natively for its value.
pub proof fn law_native_expression_is_returned(
    source: &str,
    before: Seq<char>,
    t: Seq<char>,
    after: Seq<char>,
    prepared: String,
)
    requires
        call_ensures(script::prepare_script_for_native, (source,), prepared),
        text::is_padded(source@, before, t, after),
        has_no_inner_semicolon(t),
        !opens_with_one_of(t, statement_words()),
        !"return "@.is_prefix_of(t),
    ensures
        evaluates(prepared@, "return "@ + t),
{
    text::law_trimmed_takes_padding_away(source@, before, t, after);
    lemma_statement_words(t);
}

/// A lone statement, or a lone `return`, is evaluated natively as it stands.
pub proof fn law_native_lone_statement_is_left_alone(
    source: &str,
    before: Seq<char>,
    t: Seq<char>,
    after: Seq<char>,
    prepared: String,
)
    requires
        call_ensures(script::prepare_script_for_native, (source,), prepared),
        text::is_padded(source@, before, t, after),
        has_no_inner_semicolon(t),
        opens_with_one_of(t, statement_words()) || "return "@.is_prefix_of(t),
    ensures
        evaluates(prepared@, t),
{
    text::law_trimmed_takes_padding_away(source@, before, t, after);
    lemma_statement_words(t);
    lemma_no_semicolon(script::statements(t));
}

/// Where there is no `;`, none is the last.
proof fn lemma_no_semicolon(t: Seq<char>)
    requires
        has_no_semicolon(t),
    ensures
        script::last_semicolon(t) == -1,
    decreases t.len(),
{
    if t.len() > 0 {
        assert(t[t.len() - 1] != ';');
        assert forall|i: int| 0 <= i < t.drop_last().len() implies #[trigger] t.drop_last()[i]
            != ';' by {
            assert(t[i] != ';');
        }
        lemma_no_semicolon(t.drop_last());
    }
}

/// The last `;` is the one that none follows.
proof fn lemma_last_semicolon(head: Seq<char>, tail: Seq<char>)
    requires
        head.len() > 0,
        head[head.len() - 1] == ';',
        has_no_semicolon(tail),
    ensures
        script::last_semicolon(head + tail) == head.len() - 1,
    decreases tail.len(),
{
    let all = head + tail;
    if tail.len() > 0 {
        assert(all.last() == tail[tail.len() - 1]);
        assert(all.drop_last() == head + tail.drop_last());
        assert forall|i: int| 0 <= i < tail.drop_last().len() implies #[trigger] tail.drop_last()[i]
            != ';' by {
            assert(tail[i] != ';');
        }
        lemma_last_semicolon(head, tail.drop_last());
    } else {
        assert(all == head);
    }
}

/// A word without a `;` opens a statement with a `;` behind it just if it opens
/// that statement.
proof fn lemma_opens_before_semicolon(word: Seq<char>, e: Seq<char>)
    requires
        has_no_semicolon(word),
    ensures
        word.is_prefix_of(e + ";"@) <==> word.is_prefix_of(e),
{
    reveal_strlit(";");
    let all = e + ";"@;
    if word.is_prefix_of(all) {
        if word.len() > e.len() {
            assert(word[e.len() as int] == all[e.len() as int]);
        }
        assert(word == e.subrange(0, word.len() as int));
    }
    if word.is_prefix_of(e) {
        assert(word == all.subrange(0, word.len() as int));
    }
}

/// No word that a statement opens with holds a `;`.
proof fn lemma_words_hold_no_semicolon()
    ensures
        has_no_semicolon("return "@),
        forall|i: int|
            0 <= i < statement_words().len() ==> has_no_semicolon(#[trigger] statement_words()[i]),
{
    reveal_strlit("return ");
    reveal_strlit("const ");
    reveal_strlit("let ");
    reveal_strlit("var ");
    reveal_strlit("if ");
    reveal_strlit("for ");
    reveal_strlit("while ");
    reveal_strlit("function ");
    reveal_strlit("class ");
    reveal_strlit("try ");
    assert(has_no_semicolon("const "@));
    assert(has_no_semicolon("let "@));
    assert(has_no_semicolon("var "@));
    assert(has_no_semicolon("if "@));
    assert(has_no_semicolon("for "@));
    assert(has_no_semicolon("while "@));
    assert(has_no_semicolon("function "@));
    assert(has_no_semicolon("class "@));
    assert(has_no_semicolon("try "@));
}

/// How a script falls apart into what goes before its last statement, and that
/// statement, with or without a `;` behind it.
proof fn lemma_last_statement(
    source: Seq<char>,
    before: Seq<char>,
    head: Seq<char>,
    gap: Seq<char>,
    e: Seq<char>,
    end: Seq<char>,
    after: Seq<char>,
)
    requires
        text::is_padded(source, before, head + gap + e + end, after),
        head.len() > 0,
        head[head.len() - 1] == ';',
        text::is_blank(gap),
        has_no_semicolon(e),
        text::has_bare_ends(e + end),
        end == ";"@ || (end.len() == 0 && e.len() > 0),
    ensures
        crate::text::trimmed(source) == head + gap + e + end,
        script::separates_statements(head + gap + e + end),
        script::ends_in_semicolon(head + gap + e + end) == (end == ";"@),
        script::last_semicolon(script::statements(head + gap + e + end)) == head.len() - 1,
        (head + gap + e + end).take(head.len() as int) == head,
        crate::text::trimmed((head + gap + e + end).skip(head.len() as int)) == e + end,
{
    reveal_strlit(";");
    let t = head + gap + e + end;
    text::law_trimmed_takes_padding_away(source, before, t, after);
    assert(t[head.len() - 1] == ';');
    assert(has_no_semicolon(gap)) by {
        assert forall|i: int| 0 <= i < gap.len() implies #[trigger] gap[i] != ';' by {
            assert(crate::text::is_white_space(gap[i]));
        }
    }
    assert(has_no_semicolon(gap + e)) by {
        assert forall|i: int| 0 <= i < (gap + e).len() implies #[trigger] (gap + e)[i] != ';' by {
            if i < gap.len() {
                assert(gap[i] != ';');
            } else {
                assert(e[i - gap.len()] != ';');
            }
        }
    }
    if end.len() == 0 {
        assert(t == head + (gap + e));
        assert(t.last() == e[e.len() - 1]);
    } else {
        assert(t.last() == ';');
        assert(t.drop_last() == head + (gap + e));
    }
    lemma_last_semicolon(head, gap + e);
    assert(t.take(head.len() as int) == head);
    let last = t.skip(head.len() as int);
    let none = Seq::<char>::empty();
    assert(last == gap + (e + end) + none);
    text::law_trimmed_takes_padding_away(last, gap, e + end, none);
}

/// The value of a script's last statement is returned, where no `;` stands behind
/// it, whatever stands before it and whatever word that opens with.
pub proof fn law_native_last_value_is_returned(
    source: &str,
    before: Seq<char>,
    head: Seq<char>,
    gap: Seq<char>,
    e: Seq<char>,
    after: Seq<char>,
    prepared: String,
)
    requires
        call_ensures(script::prepare_script_for_native, (source,), prepared),
        text::is_padded(source@, before, head + gap + e, after),
        head.len() > 0,
        head[head.len() - 1] == ';',
        text::is_blank(gap),
        e.len() > 0,
        text::has_bare_ends(e),
        has_no_semicolon(e),
        !"return "@.is_prefix_of(e),
    ensures
        evaluates(prepared@, head + " return "@ + e),
{
    let end = Seq::<char>::empty();
    assert(head + gap + e + end == head + gap + e);
    assert(e + end == e);
    lemma_last_statement(source@, before, head, gap, e, end, after);
    reveal_strlit(";");
    assert(e[0] != ';');
    assert(end != ";"@);
}

/// The value of a script's last statement is returned, where a `;` stands behind
/// it, unless it opens with a statement's word or returns already.
pub proof fn law_native_last_value_before_semicolon_is_returned(
    source: &str,
    before: Seq<char>,
    head: Seq<char>,
    gap: Seq<char>,
    e: Seq<char>,
    after: Seq<char>,
    prepared: String,
)
    requires
        call_ensures(script::prepare_script_for_native, (source,), prepared),
        text::is_padded(source@, before, head + gap + e + ";"@, after),
        head.len() > 0,
        head[head.len() - 1] == ';',
        text::is_blank(gap),
        e.len() > 0,
        !crate::text::is_white_space(e[0]),
        has_no_semicolon(e),
        !"return "@.is_prefix_of(e),
        !opens_with_one_of(e, statement_words()),
    ensures
        evaluates(prepared@, head + " return "@ + (e + ";"@)),
{
    reveal_strlit(";");
    let last = e + ";"@;
    assert(last[0] == e[0]);
    assert(last[last.len() - 1] == ';');
    lemma_last_statement(source@, before, head, gap, e, ";"@, after);
    lemma_words_hold_no_semicolon();
    lemma_opens_before_semicolon("return "@, e);
    lemma_statement_words(last);
    let words = statement_words();
    assert forall|i: int| 0 <= i < words.len() implies !(#[trigger] words[i]).is_prefix_of(last) by {
        lemma_opens_before_semicolon(words[i], e);
    }
}

/// A last statement without a value is left alone: one that returns already, or
/// that opens with a statement's word and has a `;` behind it, or that is empty.
pub proof fn law_native_last_without_value_is_left_alone(
    source: &str,
    before: Seq<char>,
    head: Seq<char>,
    gap: Seq<char>,
    e: Seq<char>,
    end: Seq<char>,
    after: Seq<char>,
    prepared: String,
)
    requires
        call_ensures(script::prepare_script_for_native, (source,), prepared),
        text::is_padded(source@, before, head + gap + e + end, after),
        head.len() > 0,
        head[head.len() - 1] == ';',
        text::is_blank(gap),
        has_no_semicolon(e),
        text::has_bare_ends(e + end),
        end == ";"@ || end.len() == 0,
        "return "@.is_prefix_of(e) || (end == ";"@ && (opens_with_one_of(e, statement_words())
            || e.len() == 0)),
    ensures
        evaluates(prepared@, head + gap + e + end),
{
    reveal_strlit(";");
    reveal_strlit("return ");
    lemma_last_statement(source@, before, head, gap, e, end, after);
    let last = e + end;
    lemma_words_hold_no_semicolon();
    if e.len() == 0 {
        assert(last == ";"@);
    } else if "return "@.is_prefix_of(e) {
        assert("return "@ == last.subrange(0, "return "@.len() as int));
    } else {
        let words = statement_words();
        let i = choose|i: int| 0 <= i < words.len() && (#[trigger] words[i]).is_prefix_of(e);
        lemma_opens_before_semicolon(words[i], e);
        assert(opens_with_one_of(last, words));
        lemma_statement_words(last);
    }
}

/// A natively evaluated script hands back JSON text: of its body's value, of `null`
/// where that has none, and of an object with the key `__error` where the body
/// gives a promise or throws.
pub proof fn law_native_script_hands_back_json(source: &str, prepared: String)
    requires
        call_ensures(script::prepare_script_for_native, (source,), prepared),
    ensures
        exists|body: Seq<char>|
            prepared@ == "(function() {
            try {
                var __result = (function() { "@ + body + r#" })();
                if (__result !== undefined && __result !== null && typeof __result.then === 'function') {
                    return JSON.stringify({ __error: "Async scripts not supported in native eval. Wrap with await." });
                }
                return JSON.stringify(__result === undefined ? null : __result);
            } catch (e) {
                return JSON.stringify({ __error: e.message || String(e) });
            }
        })()"#@ && #[trigger] evaluates(prepared@, body),
{
    assert(evaluates(prepared@, script::native_body(source@)));
}

/// A wrapped script emits the event `__script_result` with its execution's id,
/// whether it succeeded, the data and the error. It runs its body as an
/// asynchronous function, reports the value of that as a success, `null` where
/// there is none, and the message of what is thrown as a failure.
pub proof fn law_wrapped_script_reports_by_event(exec_id: &str, body: &str, wrapped: String)
    requires
        call_ensures(script::wrap_for_event, (exec_id, body), wrapped),
    ensures
        wrapped@ == "
        (function() {
            function __sendResult(success, data, error) {
                try {
                    if (window.__TAURI__ && window.__TAURI__.event) {
                        window.__TAURI__.event.emit('__script_result', {
                            exec_id: '"@ + exec_id@ + "',
                            success: success,
                            data: data,
                            error: error
                        });
                    } else {
                        console.error('[MCP] __TAURI__ not available, cannot send result');
                    }
                } catch (e) {
                    console.error('[MCP] Failed to emit result:', e);
                }
            }

            (async () => {
                try {
                    const __executeScript = async () => {
                        "@ + body@ + "
                    };
                    const __result = await __executeScript();
                    __sendResult(true, __result !== undefined ? __result : null, null);
                } catch (error) {
                    __sendResult(false, null, error.message || String(error));
                }
            })().catch(function(error) {
                __sendResult(false, null, error.message || String(error));
            });
        })();
        "@,
{
}

/// An execution runs its script as it is prepared and wrapped under its own id.
pub proof fn law_run_wraps_the_prepared_script(
    exec_id: String,
    name: &str,
    source: &str,
    prepared: String,
    body: &str,
    wrapped: String,
    run: EventRun,
)
    requires
        name@ == exec_id@,
        call_ensures(script::prepare_script, (source,), prepared),
        body@ == prepared@,
        call_ensures(script::wrap_for_event, (name, body), wrapped),
        call_ensures(EventRun::with_id, (exec_id, source), run),
    ensures
        run.exec_id@ == exec_id@,
        run.wrapped_script@ == wrapped@,
{
}

/// An execution under a new id runs its script as it is prepared and wrapped under
/// that id.
pub proof fn law_new_run_wraps_the_prepared_script(
    source: &str,
    prepared: String,
    name: &str,
    body: &str,
    wrapped: String,
    run: EventRun,
)
    requires
        call_ensures(EventRun::start, (source,), run),
        name@ == run.exec_id@,
        call_ensures(script::prepare_script, (source,), prepared),
        body@ == prepared@,
        call_ensures(script::wrap_for_event, (name, body), wrapped),
    ensures
        run.wrapped_script@ == wrapped@,
{
}

} // verus!
