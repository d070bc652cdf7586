//! Finding the webview that a request is meant for.

use crate::windows::{WebviewFacts, WindowInfo};
use crate::{text, windows};
use vstd::prelude::*;

verus! {

/// A window or webview of the application, under its label.
pub struct Labelled<H> {
    pub label: String,
    pub handle: H,
}

/// Context about which window was used for an operation.
#[derive(Debug, Clone, PartialEq)]
pub struct WindowContext {
    /// The label of the window that was used
    pub window_label: String,
    /// Total number of windows available
    pub total_windows: usize,
    /// Warning message if multiple windows exist but none was specified
    pub warning: Option<String>,
}

/// A resolved webview that can execute scripts: a window and its webview in one,
/// or a webview that stands alone.
pub enum ResolvedWebview<W, V> {
    WebviewWindow(Labelled<W>),
    Webview(Labelled<V>),
}

impl<W, V> ResolvedWebview<W, V> {
    /// The label of this webview.
    pub open spec fn label_view(self) -> Seq<char> {
        match self {
            ResolvedWebview::WebviewWindow(w) => w.label@,
            ResolvedWebview::Webview(v) => v.label@,
        }
    }

    /// The label of this webview.
    pub fn label(&self) -> (r: &str)
        ensures
            r@ == self.label_view(),
    {
        match self {
            ResolvedWebview::WebviewWindow(w) => w.label.as_str(),
            ResolvedWebview::Webview(v) => v.label.as_str(),
        }
    }

    /// The underlying webview window, if this is one.
    pub fn as_webview_window(&self) -> (r: Option<&W>)
        ensures
            match *self {
                ResolvedWebview::WebviewWindow(w) => r == Some(&w.handle),
                ResolvedWebview::Webview(_) => r is None,
            },
    {
        match self {
            ResolvedWebview::WebviewWindow(w) => Some(&w.handle),
            ResolvedWebview::Webview(_) => None,
        }
    }

    /// Turns this into its webview window, if it is one.
    pub fn into_webview_window(self) -> (r: Option<W>)
        ensures
            match self {
                ResolvedWebview::WebviewWindow(w) => r == Some(w.handle),
                ResolvedWebview::Webview(_) => r is None,
            },
    {
        match self {
            ResolvedWebview::WebviewWindow(w) => Some(w.handle),
            ResolvedWebview::Webview(_) => None,
        }
    }
}

/// Result of resolving a window, with context information.
pub struct ResolvedWindow<W, V> {
    pub window: ResolvedWebview<W, V>,
    pub context: WindowContext,
}

/// The first of `entries` with this label, if there is one.
pub open spec fn lookup<H>(entries: Seq<Labelled<H>>, label: Seq<char>) -> Option<Labelled<H>>
    decreases entries.len(),
{
    if entries.len() == 0 {
        None
    } else if entries.first().label@ == label {
        Some(entries.first())
    } else {
        lookup(entries.drop_first(), label)
    }
}

/// The label that is looked for: the one that was given, or `main`.
pub open spec fn target_label(label: Option<String>) -> Seq<char> {
    match label {
        Some(given) => given@,
        None => "main"@,
    }
}

/// The webview that a request for `label` is meant for: the window of that label,
/// or else the webview of that label. A request without a label is for `main`,
/// and if there is no such webview, for the first webview, or else the first
/// window.
pub open spec fn resolution<W, V>(
    windows: Seq<Labelled<W>>,
    webviews: Seq<Labelled<V>>,
    label: Option<String>,
) -> Option<ResolvedWebview<W, V>> {
    let target = target_label(label);
    match lookup(windows, target) {
        Some(w) => Some(ResolvedWebview::WebviewWindow(w)),
        None => match lookup(webviews, target) {
            Some(v) => Some(ResolvedWebview::Webview(v)),
            None => if label is Some {
                None
            } else if webviews.len() > 0 {
                Some(ResolvedWebview::Webview(webviews[0]))
            } else if windows.len() > 0 {
                Some(ResolvedWebview::WebviewWindow(windows[0]))
            } else {
                None
            },
        },
    }
}

/// `labels`, each at its first place only.
pub open spec fn first_occurrences(labels: Seq<Seq<char>>) -> Seq<Seq<char>>
    decreases labels.len(),
{
    if labels.len() == 0 {
        Seq::empty()
    } else {
        let init = first_occurrences(labels.drop_last());
        if init.contains(labels.last()) {
            init
        } else {
            init.push(labels.last())
        }
    }
}

/// The labels of `entries`.
pub open spec fn labels_of<H>(entries: Seq<Labelled<H>>) -> Seq<Seq<char>> {
    Seq::new(entries.len(), |i: int| entries[i].label@)
}

/// The labels of all webviews and windows, each once.
pub open spec fn available_labels<W, V>(
    windows: Seq<Labelled<W>>,
    webviews: Seq<Labelled<V>>,
) -> Seq<Seq<char>> {
    first_occurrences(labels_of(webviews) + labels_of(windows))
}

/// Whether a request is answered with a warning: multiple windows exist, but none
/// was specified.
pub open spec fn is_warned<W, V>(
    windows: Seq<Labelled<W>>,
    webviews: Seq<Labelled<V>>,
    label: Option<String>,
) -> bool {
    label is None && available_labels(windows, webviews).len() > 1
}

/// The warning that `used` was chosen out of `available`.
pub open spec fn warning_text(used: Seq<char>, available: Seq<Seq<char>>) -> Seq<char> {
    "Multiple webviews detected ("@ + text::decimal(available.len()) + " total). Using '"@ + used
        + "'. Use windowId parameter to target a specific webview. Available: "@ + text::joined(
        available,
        ", "@,
    )
}

/// The complaint that there is no such window.
pub open spec fn not_found_text(label: Seq<char>) -> Seq<char> {
    "Window '"@ + label + "' not found"@
}

/// Finds the first entry with this label.
fn position_of<H>(entries: &Vec<Labelled<H>>, label: &String) -> (r: Option<usize>)
    ensures
        match r {
            Some(i) => i < entries.len() && lookup(entries@, label@) == Some(entries@[i as int]),
            None => lookup(entries@, label@) is None,
        },
{
    let mut i: usize = 0;
    assert(entries@.skip(0) == entries@);
    while i < entries.len()
        invariant
            i <= entries.len(),
            lookup(entries@, label@) == lookup(entries@.skip(i as int), label@),
        decreases entries.len() - i,
    {
        if entries[i].label == *label {
            return Some(i);
        }
        assert(entries@.skip(i as int).drop_first() == entries@.skip(i + 1));
        i = i + 1;
    }
    None
}

/// Adds the labels of `entries` that `labels` does not hold.
fn add_labels<H>(
    labels: &mut Vec<String>,
    entries: &Vec<Labelled<H>>,
    Ghost(before): Ghost<Seq<Seq<char>>>,
)
    requires
        text::views(old(labels)@) == first_occurrences(before),
    ensures
        text::views(final(labels)@) == first_occurrences(before + labels_of(entries@)),
{
    let mut i: usize = 0;
    let ghost added = labels_of(entries@);
    assert(before + added.take(0) == before);
    while i < entries.len()
        invariant
            i <= entries.len(),
            added == labels_of(entries@),
            text::views(labels@) == first_occurrences(before + added.take(i as int)),
        decreases entries.len() - i,
    {
        let label = &entries[i].label;
        let ghost seen = before + added.take(i as int);
        let ghost more = before + added.take(i + 1);
        assert(more.drop_last() == seen);
        assert(more.last() == label@);
        let mut known = false;
        let mut j: usize = 0;
        while j < labels.len()
            invariant
                j <= labels.len(),
                known == exists|k: int| 0 <= k < j && #[trigger] labels@[k]@ == label@,
            decreases labels.len() - j,
        {
            if labels[j] == *label {
                known = true;
                assert(labels@[j as int]@ == label@);
            }
            j = j + 1;
        }
        proof {
            let now = text::views(labels@);
            if known {
                let k = choose|k: int| 0 <= k < labels.len() && #[trigger] labels@[k]@ == label@;
                assert(now[k] == label@);
            } else if now.contains(label@) {
                let k = choose|k: int| 0 <= k < now.len() && now[k] == label@;
                assert(labels@[k]@ == label@);
            }
        }
        let ghost prior = labels@;
        if !known {
            labels.push(label.clone());
            assert(text::views(labels@) == text::views(prior).push(label@));
        }
        i = i + 1;
    }
    assert(added.take(i as int) == added);
}

/// The labels of all webviews and windows, each once.
fn all_labels<W, V>(windows: &Vec<Labelled<W>>, webviews: &Vec<Labelled<V>>) -> (labels: Vec<
    String,
>)
    ensures
        text::views(labels@) == available_labels(windows@, webviews@),
{
    let mut labels: Vec<String> = Vec::new();
    proof {
        assert(text::views(labels@) == first_occurrences(Seq::empty()));
        assert(Seq::<Seq<char>>::empty() + labels_of(webviews@) == labels_of(webviews@));
    }
    add_labels(&mut labels, webviews, Ghost(Seq::empty()));
    add_labels(&mut labels, windows, Ghost(labels_of(webviews@)));
    labels
}

/// The warning that `actual_label` was chosen out of `labels`.
fn multi_window_warning(actual_label: &str, labels: &Vec<String>) -> (warning: String)
    ensures
        warning@ == warning_text(actual_label@, text::views(labels@)),
{
    let mut warning = "Multiple webviews detected (".to_owned();
    warning.append(text::decimal_text(labels.len()).as_str());
    warning.append(" total). Using '");
    warning.append(actual_label);
    warning.append("'. Use windowId parameter to target a specific webview. Available: ");
    warning.append(text::join(labels, ", ").as_str());
    warning
}

/// Whether `r` answers a request for `label`.
pub open spec fn is_resolved<W, V>(
    windows: Seq<Labelled<W>>,
    webviews: Seq<Labelled<V>>,
    label: Option<String>,
    r: Result<ResolvedWindow<W, V>, String>,
) -> bool {
    match resolution(windows, webviews, label) {
        Some(window) => {
            &&& r matches Ok(found)
            &&& found.window == window
            &&& found.context.window_label@ == window.label_view()
            &&& found.context.total_windows == available_labels(windows, webviews).len()
            &&& match found.context.warning {
                Some(warning) => is_warned(windows, webviews, label) && warning@ == warning_text(
                    window.label_view(),
                    available_labels(windows, webviews),
                ),
                None => !is_warned(windows, webviews, label),
            }
        },
        None => r matches Err(message) && message@ == not_found_text(target_label(label)),
    }
}

/// The complaint that there is no such window.
fn not_found(label: &str) -> (message: String)
    ensures
        message@ == not_found_text(label@),
{
    let mut message = "Window '".to_owned();
    message.append(label);
    message.append("' not found");
    message
}

/// Tells that `window` was used out of `labels`, with a warning or not.
fn with_context<W, V>(window: ResolvedWebview<W, V>, labels: &Vec<String>, warned: bool) -> (found:
    ResolvedWindow<W, V>)
    ensures
        found.window == window,
        found.context.window_label@ == window.label_view(),
        found.context.total_windows == labels.len(),
        match found.context.warning {
            Some(warning) => warned && warning@ == warning_text(
                window.label_view(),
                text::views(labels@),
            ),
            None => !warned,
        },
{
    let window_label = window.label().to_owned();
    let warning = if warned {
        Some(multi_window_warning(window_label.as_str(), labels))
    } else {
        None
    };
    let context = WindowContext { window_label, total_windows: labels.len(), warning };
    ResolvedWindow { window, context }
}

/// Resolves a webview by label, with smart fallback.
///
/// `windows` are the webview windows and `webviews` all webviews. Resolution
/// order:
/// 1. The webview window of that label
/// 2. The webview of that label
/// 3. If no label is given, the first available webview
pub fn resolve_window_with_context<W, V>(
    windows: Vec<Labelled<W>>,
    webviews: Vec<Labelled<V>>,
    label: Option<String>,
) -> (r: Result<ResolvedWindow<W, V>, String>)
    ensures
        is_resolved(windows@, webviews@, label, r),
{
    let labels = all_labels(&windows, &webviews);
    let explicit_label = label.is_some();
    let target = match label {
        Some(given) => given,
        None => "main".to_owned(),
    };
    let warned = !explicit_label && labels.len() > 1;
    let mut windows = windows;
    let mut webviews = webviews;
    if let Some(at) = position_of(&windows, &target) {
        let window = ResolvedWebview::WebviewWindow(windows.swap_remove(at));
        return Ok(with_context(window, &labels, warned));
    }
    if let Some(at) = position_of(&webviews, &target) {
        let window = ResolvedWebview::Webview(webviews.swap_remove(at));
        return Ok(with_context(window, &labels, warned));
    }
    if !explicit_label {
        if webviews.len() > 0 {
            let window = ResolvedWebview::Webview(webviews.swap_remove(0));
            return Ok(with_context(window, &labels, warned));
        }
        if windows.len() > 0 {
            let window = ResolvedWebview::WebviewWindow(windows.swap_remove(0));
            return Ok(with_context(window, &labels, warned));
        }
    }
    Err(not_found(target.as_str()))
}

/// The window that a request for `label` is meant for, where only a window will
/// do: the one of that label, or without a label `main` or else the first.
pub open spec fn window_resolution<W>(
    windows: Seq<Labelled<W>>,
    label: Option<String>,
) -> Option<Labelled<W>> {
    match lookup(windows, target_label(label)) {
        Some(w) => Some(w),
        None => if label is None && windows.len() > 0 {
            Some(windows[0])
        } else {
            None
        },
    }
}

/// Resolves a webview window by label.
pub fn resolve_window<W>(windows: Vec<Labelled<W>>, label: Option<String>) -> (r: Result<
    W,
    String,
>)
    ensures
        match window_resolution(windows@, label) {
            Some(window) => r == Ok::<W, String>(window.handle),
            None => r matches Err(message) && message@ == not_found_text(target_label(label)),
        },
{
    let explicit = label.is_some();
    let target = match label {
        Some(given) => given,
        None => "main".to_owned(),
    };
    let mut windows = windows;
    if let Some(at) = position_of(&windows, &target) {
        return Ok(windows.swap_remove(at).handle);
    }
    if !explicit && windows.len() > 0 {
        return Ok(windows.swap_remove(0).handle);
    }
    Err(not_found(target.as_str()))
}

/// What is looked up under a label has that label, and is one of the entries.
proof fn lemma_lookup<H>(entries: Seq<Labelled<H>>, label: Seq<char>)
    ensures
        lookup(entries, label) matches Some(found) ==> found.label@ == label && entries.contains(
            found,
        ),
        lookup(entries, label) is None <==> forall|i: int|
            0 <= i < entries.len() ==> #[trigger] entries[i].label@ != label,
    decreases entries.len(),
{
    if entries.len() > 0 {
        let rest = entries.drop_first();
        lemma_lookup(rest, label);
        assert(forall|k: int| 0 <= k < rest.len() ==> rest[k] == entries[k + 1]);
        if entries.first().label@ == label {
            assert(entries[0].label@ == label);
            assert(entries.contains(entries[0]));
        } else if let Some(found) = lookup(rest, label) {
            let k = choose|k: int| 0 <= k < rest.len() && rest[k] == found;
            assert(entries[k + 1] == found);
            assert(entries[k + 1].label@ == label);
        } else {
            assert forall|i: int| 0 <= i < entries.len() implies #[trigger] entries[i].label@
                != label by {
                if i > 0 {
                    assert(rest[i - 1].label@ != label);
                }
            }
        }
    }
}

/// A request that names a window gets that window or none, and no warning.
pub proof fn law_explicit_label_is_kept<W, V>(
    windows: Seq<Labelled<W>>,
    webviews: Seq<Labelled<V>>,
    label: String,
    found: ResolvedWindow<W, V>,
)
    requires
        is_resolved(windows, webviews, Some(label), Ok(found)),
    ensures
        found.window.label_view() == label@,
        found.context.window_label@ == label@,
        found.context.warning is None,
{
    lemma_lookup(windows, label@);
    lemma_lookup(webviews, label@);
}

/// What a request is answered with is one of the windows or webviews, and the
/// context names it.
pub proof fn law_answer_is_available<W, V>(
    windows: Seq<Labelled<W>>,
    webviews: Seq<Labelled<V>>,
    label: Option<String>,
    found: ResolvedWindow<W, V>,
)
    requires
        is_resolved(windows, webviews, label, Ok(found)),
    ensures
        match found.window {
            ResolvedWebview::WebviewWindow(w) => windows.contains(w),
            ResolvedWebview::Webview(v) => webviews.contains(v),
        },
        found.context.window_label@ == found.window.label_view(),
{
    lemma_lookup(windows, target_label(label));
    lemma_lookup(webviews, target_label(label));
}

/// A request fails only if the window that it names does not exist, or if it
/// names none and there is none at all.
pub proof fn law_failure_means_absence<W, V>(
    windows: Seq<Labelled<W>>,
    webviews: Seq<Labelled<V>>,
    label: Option<String>,
    r: Result<ResolvedWindow<W, V>, String>,
)
    requires
        is_resolved(windows, webviews, label, r),
    ensures
        r is Err <==> match label {
            Some(given) => {
                &&& forall|i: int|
                    0 <= i < windows.len() ==> #[trigger] windows[i].label@ != given@
                &&& forall|i: int|
                    0 <= i < webviews.len() ==> #[trigger] webviews[i].label@ != given@
            },
            None => windows.len() == 0 && webviews.len() == 0,
        },
{
    lemma_lookup(windows, target_label(label));
    lemma_lookup(webviews, target_label(label));
}

/// Wherever a request is answered with a window, asking for a window only gives
/// the same one.
pub proof fn law_resolvers_agree<W, V>(
    windows: Seq<Labelled<W>>,
    webviews: Seq<Labelled<V>>,
    label: Option<String>,
    window: Labelled<W>,
)
    requires
        resolution(windows, webviews, label) == Some(
            ResolvedWebview::<W, V>::WebviewWindow(window),
        ),
    ensures
        window_resolution(windows, label) == Some(window),
{
}

/// The labels that a warning names are those of the windows and webviews, each
/// once.
pub proof fn law_available_labels<W, V>(
    windows: Seq<Labelled<W>>,
    webviews: Seq<Labelled<V>>,
    label: Seq<char>,
)
    ensures
        available_labels(windows, webviews).no_duplicates(),
        available_labels(windows, webviews).contains(label) <==> labels_of(windows).contains(label)
            || labels_of(webviews).contains(label),
{
    let all = labels_of(webviews) + labels_of(windows);
    lemma_first_occurrences(all, label);
    if labels_of(webviews).contains(label) {
        let i = choose|i: int| 0 <= i < webviews.len() && labels_of(webviews)[i] == label;
        assert(all[i] == label);
    }
    if labels_of(windows).contains(label) {
        let i = choose|i: int| 0 <= i < windows.len() && labels_of(windows)[i] == label;
        assert(all[webviews.len() + i] == label);
    }
    if all.contains(label) {
        let i = choose|i: int| 0 <= i < all.len() && all[i] == label;
        if i < webviews.len() {
            assert(labels_of(webviews)[i] == label);
        } else {
            assert(labels_of(windows)[i - webviews.len()] == label);
        }
    }
}

/// The total that an answer gives is how many entries a listing of the same
/// windows and webviews has.
pub proof fn law_total_is_listing_length<W, V>(
    window_entries: Seq<Labelled<W>>,
    webview_entries: Seq<Labelled<V>>,
    label: Option<String>,
    found: ResolvedWindow<W, V>,
    window_facts: Seq<WebviewFacts>,
    webview_facts: Seq<WebviewFacts>,
    list: Seq<WindowInfo>,
)
    requires
        is_resolved(window_entries, webview_entries, label, Ok(found)),
        windows::is_listing(window_facts, webview_facts, list),
        windows::distinct_labels(window_facts),
        windows::distinct_labels(webview_facts),
        forall|l: Seq<char>| #[trigger]
            labels_of(window_entries).contains(l) <==> windows::has_label(window_facts, l),
        forall|l: Seq<char>| #[trigger]
            labels_of(webview_entries).contains(l) <==> windows::has_label(webview_facts, l),
    ensures
        found.context.total_windows == list.len(),
{
    let available = available_labels(window_entries, webview_entries);
    let listed = Seq::new(list.len(), |i: int| list[i].label@);
    windows::lemma_listing(window_facts, webview_facts, list);
    law_available_labels(window_entries, webview_entries, Seq::empty());
    assert(listed.no_duplicates()) by {
        assert forall|i: int, j: int|
            0 <= i < listed.len() && 0 <= j < listed.len() && i != j implies listed[i]
            != listed[j] by {
            assert(list[i].label@ == listed[i] && list[j].label@ == listed[j]);
        }
    }
    assert forall|l: Seq<char>| available.contains(l) <==> listed.contains(l) by {
        law_available_labels(window_entries, webview_entries, l);
        windows::law_each_listed_once(window_facts, webview_facts, list, l);
        assert(labels_of(window_entries).contains(l) <==> windows::has_label(window_facts, l));
        assert(labels_of(webview_entries).contains(l) <==> windows::has_label(webview_facts, l));
        if windows::lists_once(list, l) {
            let i = choose|i: int| 0 <= i < list.len() && #[trigger] list[i].label@ == l;
            assert(listed[i] == l);
        }
        if listed.contains(l) {
            let i = choose|i: int| 0 <= i < listed.len() && listed[i] == l;
            assert(list[i].label@ == l);
            assert(windows::lists_once(list, l));
        }
    }
    available.unique_seq_to_set();
    listed.unique_seq_to_set();
    assert(available.to_set() =~= listed.to_set());
}

/// A request that names no window and is answered without a warning got the only
/// window there is.
pub proof fn law_unwarned_choice_is_the_only_one<W, V>(
    windows: Seq<Labelled<W>>,
    webviews: Seq<Labelled<V>>,
    found: ResolvedWindow<W, V>,
    other: Seq<char>,
)
    requires
        is_resolved(windows, webviews, None, Ok(found)),
        found.context.warning is None,
        labels_of(windows).contains(other) || labels_of(webviews).contains(other),
    ensures
        other == found.context.window_label@,
{
    let used = found.window.label_view();
    let available = available_labels(windows, webviews);
    law_answer_is_available(windows, webviews, None, found);
    match found.window {
        ResolvedWebview::WebviewWindow(w) => {
            let i = choose|i: int| 0 <= i < windows.len() && windows[i] == w;
            assert(labels_of(windows)[i] == used);
        },
        ResolvedWebview::Webview(v) => {
            let i = choose|i: int| 0 <= i < webviews.len() && webviews[i] == v;
            assert(labels_of(webviews)[i] == used);
        },
    }
    law_available_labels(windows, webviews, used);
    law_available_labels(windows, webviews, other);
    assert(available.len() <= 1);
}

/// The first occurrences differ, and leave no label out.
proof fn lemma_first_occurrences(labels: Seq<Seq<char>>, label: Seq<char>)
    ensures
        first_occurrences(labels).no_duplicates(),
        first_occurrences(labels).contains(label) <==> labels.contains(label),
    decreases labels.len(),
{
    if labels.len() > 0 {
        let last = labels.last();
        let shorter = first_occurrences(labels.drop_last());
        let longer = first_occurrences(labels);
        lemma_first_occurrences(labels.drop_last(), label);
        assert(labels == labels.drop_last().push(last));
        if !shorter.contains(last) {
            assert(forall|k: int| 0 <= k < shorter.len() ==> longer[k] == shorter[k]);
            assert(longer[shorter.len() as int] == last);
            if shorter.contains(label) {
                let k = choose|k: int| 0 <= k < shorter.len() && shorter[k] == label;
                assert(longer[k] == label);
            }
        }
        if labels.drop_last().contains(label) {
            let k = choose|k: int| 0 <= k < labels.len() - 1 && labels.drop_last()[k] == label;
            assert(labels[k] == label);
        }
        if labels.contains(label) && label != last {
            let k = choose|k: int| 0 <= k < labels.len() && labels[k] == label;
            assert(labels.drop_last()[k] == label);
        }
        if label == last {
            assert(labels[labels.len() - 1] == label);
        }
    }
}

} // verus!
