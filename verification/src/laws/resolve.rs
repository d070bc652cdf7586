//! Laws of resolving a window.

use crate::resolve;
use crate::resolve::{Labelled, ResolvedWebview, ResolvedWindow};
use vstd::prelude::*;

verus! {

/// Whether the entry `i` is the first with the label `label`.
pub open spec fn is_first<H>(entries: Seq<Labelled<H>>, i: int, label: Seq<char>) -> bool {
    &&& 0 <= i < entries.len()
    &&& entries[i].label@ == label
    &&& forall|j: int| 0 <= j < i ==> #[trigger] entries[j].label@ != label
}

/// Whether no entry has the label `label`.
pub open spec fn is_free<H>(entries: Seq<Labelled<H>>, label: Seq<char>) -> bool {
    forall|i: int| 0 <= i < entries.len() ==> #[trigger] entries[i].label@ != label
}

/// Whether `label` is what a request asks for: what it names, or `main` if it names
/// nothing.
pub open spec fn asks_for(request: Option<String>, label: Seq<char>) -> bool {
    (request is Some ==> label == request->0@) && (request is None ==> label == "main"@)
}

/// The labels of all windows and webviews.
pub open spec fn labels<W, V>(
    found: Seq<Labelled<W>>,
    others: Seq<Labelled<V>>,
) -> Seq<Seq<char>> {
    found.map_values(|w: Labelled<W>| w.label@) + others.map_values(|v: Labelled<V>| v.label@)
}

/// The first entry of a label is the one that is looked up.
proof fn lemma_first<H>(entries: Seq<Labelled<H>>, i: int, label: Seq<char>)
    requires
        is_first(entries, i, label),
    ensures
        resolve::lookup(entries, label) == Some(entries[i]),
    decreases entries.len(),
{
    if i > 0 {
        let rest = entries.drop_first();
        assert(entries[0].label@ != label);
        assert(forall|k: int| 0 <= k < rest.len() ==> #[trigger] rest[k] == entries[k + 1]);
        lemma_first(rest, i - 1, label);
    }
}

/// A label that no entry has is not looked up.
proof fn lemma_free<H>(entries: Seq<Labelled<H>>, label: Seq<char>)
    requires
        is_free(entries, label),
    ensures
        resolve::lookup(entries, label) is None,
    decreases entries.len(),
{
    if entries.len() > 0 {
        let rest = entries.drop_first();
        assert(entries[0].label@ != label);
        assert(forall|k: int| 0 <= k < rest.len() ==> #[trigger] rest[k] == entries[k + 1]);
        lemma_free(rest, label);
    }
}

/// The window of the label that is asked for is the answer, whatever webviews there
/// are.
pub proof fn law_window_of_the_label_is_the_answer<W, V>(
    found: Vec<Labelled<W>>,
    others: Vec<Labelled<V>>,
    request: Option<String>,
    label: Seq<char>,
    i: int,
    r: Result<ResolvedWindow<W, V>, String>,
)
    requires
        call_ensures(
            resolve::resolve_window_with_context::<W, V>,
            (found, others, request),
            r,
        ),
        asks_for(request, label),
        is_first(found@, i, label),
    ensures
        r is Ok,
        r->Ok_0.window == ResolvedWebview::<W, V>::WebviewWindow(found@[i]),
{
    lemma_first(found@, i, label);
}

/// Where no window has the label that is asked for, the webview of that label is
/// the answer.
pub proof fn law_webview_of_the_label_is_next<W, V>(
    found: Vec<Labelled<W>>,
    others: Vec<Labelled<V>>,
    request: Option<String>,
    label: Seq<char>,
    i: int,
    r: Result<ResolvedWindow<W, V>, String>,
)
    requires
        call_ensures(
            resolve::resolve_window_with_context::<W, V>,
            (found, others, request),
            r,
        ),
        asks_for(request, label),
        is_free(found@, label),
        is_first(others@, i, label),
    ensures
        r is Ok,
        r->Ok_0.window == ResolvedWebview::<W, V>::Webview(others@[i]),
{
    lemma_free(found@, label);
    lemma_first(others@, i, label);
}

/// A request that names nothing, where nothing is called `main`, is answered with
/// the first webview, or else with the first window. It fails only where there is
/// neither.
pub proof fn law_anything_will_do_unnamed<W, V>(
    found: Vec<Labelled<W>>,
    others: Vec<Labelled<V>>,
    r: Result<ResolvedWindow<W, V>, String>,
)
    requires
        call_ensures(resolve::resolve_window_with_context::<W, V>, (found, others, None), r),
        is_free(found@, "main"@),
        is_free(others@, "main"@),
    ensures
        others@.len() > 0 ==> r is Ok && r->Ok_0.window == ResolvedWebview::<W, V>::Webview(
            others@[0],
        ),
        others@.len() == 0 && found@.len() > 0 ==> r is Ok && r->Ok_0.window
            == ResolvedWebview::<W, V>::WebviewWindow(found@[0]),
        others@.len() == 0 && found@.len() == 0 ==> r is Err && r->Err_0@
            == "Window '"@ + "main"@ + "' not found"@,
{
    lemma_free(found@, "main"@);
    lemma_free(others@, "main"@);
}

/// A request that names what does not exist fails, and is told so by name.
pub proof fn law_missing_name_is_told<W, V>(
    found: Vec<Labelled<W>>,
    others: Vec<Labelled<V>>,
    name: String,
    r: Result<ResolvedWindow<W, V>, String>,
)
    requires
        call_ensures(
            resolve::resolve_window_with_context::<W, V>,
            (found, others, Some(name)),
            r,
        ),
        is_free(found@, name@),
        is_free(others@, name@),
    ensures
        r is Err,
        r->Err_0@ == "Window '"@ + name@ + "' not found"@,
{
    lemma_free(found@, name@);
    lemma_free(others@, name@);
}

/// The labels that are counted are those of all windows and webviews, each once.
proof fn lemma_available<W, V>(found: Seq<Labelled<W>>, others: Seq<Labelled<V>>)
    ensures
        resolve::available_labels(found, others).no_duplicates(),
        resolve::available_labels(found, others).to_set() == labels(found, others).to_set(),
        resolve::available_labels(found, others).len() == labels(found, others).to_set().len(),
{
    let available = resolve::available_labels(found, others);
    let all = labels(found, others);
    resolve::law_available_labels(found, others, Seq::empty());
    assert forall|label: Seq<char>| available.contains(label) <==> all.contains(label) by {
        resolve::law_available_labels(found, others, label);
        let windows = resolve::labels_of(found);
        let webviews = resolve::labels_of(others);
        if windows.contains(label) {
            let i = choose|i: int| 0 <= i < windows.len() && windows[i] == label;
            assert(all[i] == label);
        }
        if webviews.contains(label) {
            let i = choose|i: int| 0 <= i < webviews.len() && webviews[i] == label;
            assert(all[found.len() + i] == label);
        }
        if all.contains(label) {
            let i = choose|i: int| 0 <= i < all.len() && all[i] == label;
            if i < found.len() {
                assert(windows[i] == label);
            } else {
                assert(webviews[i - found.len()] == label);
            }
        }
    }
    assert(available.to_set() =~= all.to_set());
    available.unique_seq_to_set();
}

/// The answer tells the label of what it answers with, and how many different
/// labels there are.
pub proof fn law_context_tells_label_and_total<W, V>(
    found: Vec<Labelled<W>>,
    others: Vec<Labelled<V>>,
    request: Option<String>,
    r: Result<ResolvedWindow<W, V>, String>,
)
    requires
        call_ensures(
            resolve::resolve_window_with_context::<W, V>,
            (found, others, request),
            r,
        ),
        r is Ok,
    ensures
        r->Ok_0.window matches ResolvedWebview::WebviewWindow(w)
            ==> r->Ok_0.context.window_label@ == w.label@,
        r->Ok_0.window matches ResolvedWebview::Webview(v) ==> r->Ok_0.context.window_label@
            == v.label@,
        r->Ok_0.context.total_windows == labels(found@, others@).to_set().len(),
{
    lemma_available(found@, others@);
}

/// An answer warns just if the request named nothing and there are two different
/// labels to choose from.
pub proof fn law_warned_of_a_choice<W, V>(
    found: Vec<Labelled<W>>,
    others: Vec<Labelled<V>>,
    request: Option<String>,
    r: Result<ResolvedWindow<W, V>, String>,
)
    requires
        call_ensures(
            resolve::resolve_window_with_context::<W, V>,
            (found, others, request),
            r,
        ),
        r is Ok,
    ensures
        r->Ok_0.context.warning is Some <==> request is None && exists|a: int, b: int|
            0 <= a < labels(found@, others@).len() && 0 <= b < labels(found@, others@).len()
                && #[trigger] labels(found@, others@)[a] != #[trigger] labels(found@, others@)[b],
{
    let available = resolve::available_labels(found@, others@);
    let all = labels(found@, others@);
    lemma_available(found@, others@);
    if available.len() > 1 {
        assert(available.to_set().contains(available[0]));
        assert(available.to_set().contains(available[1]));
        assert(available[0] != available[1]);
        assert(all.contains(available[0]) && all.contains(available[1]));
        let a = choose|a: int| 0 <= a < all.len() && all[a] == available[0];
        let b = choose|b: int| 0 <= b < all.len() && all[b] == available[1];
        assert(all[a] != all[b]);
    }
    assert forall|a: int, b: int|
        0 <= a < all.len() && 0 <= b < all.len() && #[trigger] all[a] != #[trigger] all[b] implies available.len()
        > 1 by {
        assert(all.to_set().contains(all[a]) && all.to_set().contains(all[b]));
        assert(available.contains(all[a]) && available.contains(all[b]));
    }
}

/// A warning tells how many labels there are, which one was used, how to choose
/// another, and every label, each once.
pub proof fn law_warning_names_every_label<W, V>(
    found: Vec<Labelled<W>>,
    others: Vec<Labelled<V>>,
    request: Option<String>,
    r: Result<ResolvedWindow<W, V>, String>,
)
    requires
        call_ensures(
            resolve::resolve_window_with_context::<W, V>,
            (found, others, request),
            r,
        ),
        r is Ok,
        r->Ok_0.context.warning is Some,
    ensures
        exists|names: Seq<Seq<char>>|
            {
                &&& names.no_duplicates()
                &&& names.to_set() == labels(found@, others@).to_set()
                &&& r->Ok_0.context.warning->0@ == "Multiple webviews detected ("@
                    + crate::text::decimal(r->Ok_0.context.total_windows as nat)
                    + " total). Using '"@ + r->Ok_0.context.window_label@
                    + "'. Use windowId parameter to target a specific webview. Available: "@
                    + #[trigger] crate::text::joined(names, ", "@)
            },
{
    lemma_available(found@, others@);
    let names = resolve::available_labels(found@, others@);
    assert(r->Ok_0.context.warning->0@ == "Multiple webviews detected ("@ + crate::text::decimal(
        r->Ok_0.context.total_windows as nat,
    ) + " total). Using '"@ + r->Ok_0.context.window_label@
        + "'. Use windowId parameter to target a specific webview. Available: "@
        + crate::text::joined(names, ", "@));
}

/// Where only a window will do, the one of the label that is asked for is the
/// answer.
pub proof fn law_window_only<W>(
    found: Vec<Labelled<W>>,
    request: Option<String>,
    label: Seq<char>,
    i: int,
    r: Result<W, String>,
)
    requires
        call_ensures(resolve::resolve_window::<W>, (found, request), r),
        asks_for(request, label),
        is_first(found@, i, label),
    ensures
        r == Ok::<W, String>(found@[i].handle),
{
    lemma_first(found@, i, label);
}

/// Where only a window will do and none has the label that is asked for, a request
/// that names nothing is answered with the first, and any other fails by name.
pub proof fn law_window_only_without_the_label<W>(
    found: Vec<Labelled<W>>,
    request: Option<String>,
    label: Seq<char>,
    r: Result<W, String>,
)
    requires
        call_ensures(resolve::resolve_window::<W>, (found, request), r),
        asks_for(request, label),
        is_free(found@, label),
    ensures
        request is None && found@.len() > 0 ==> r == Ok::<W, String>(found@[0].handle),
        request is Some || found@.len() == 0 ==> r is Err && r->Err_0@ == "Window '"@ + label
            + "' not found"@,
{
    lemma_free(found@, label);
}

/// What was resolved has its own label, and is a window just if it was resolved as
/// one. Looking at that window and taking it give the same.
pub proof fn law_resolved_is_what_it_is<W, V>(
    resolved: &ResolvedWebview<W, V>,
    label: &str,
    seen: Option<&W>,
    taken: Option<W>,
)
    requires
        call_ensures(ResolvedWebview::<W, V>::label, (resolved,), label),
        call_ensures(ResolvedWebview::<W, V>::as_webview_window, (resolved,), seen),
        call_ensures(ResolvedWebview::<W, V>::into_webview_window, (*resolved,), taken),
    ensures
        *resolved matches ResolvedWebview::WebviewWindow(w) ==> label@ == w.label@ && seen
            == Some(&w.handle) && taken == Some(w.handle),
        *resolved matches ResolvedWebview::Webview(v) ==> label@ == v.label@ && seen is None
            && taken is None,
{
}

} // verus!
