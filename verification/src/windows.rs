//! Listing the windows and webviews of the application.

use crate::text;
use vstd::prelude::*;

verus! {

/// What is known of a webview. What could not be found out is `None`.
#[derive(Debug, PartialEq)]
pub struct WebviewFacts {
    pub label: String,
    pub title: Option<String>,
    pub url: Option<String>,
    pub focused: Option<bool>,
    pub visible: Option<bool>,
}

/// Information about a webview window.
#[derive(Debug, Clone, PartialEq)]
pub struct WindowInfo {
    /// The unique label of this window
    pub label: String,
    /// The window title (if available)
    pub title: Option<String>,
    /// The current URL loaded in the webview (if available)
    pub url: Option<String>,
    /// Whether this window currently has focus
    pub focused: bool,
    /// Whether this window is visible
    pub visible: bool,
    /// Whether this is the main window (its label is `main`)
    pub is_main: bool,
}

/// What is listed of a webview. A state that could not be found out counts as
/// false.
pub open spec fn info_of(facts: WebviewFacts) -> WindowInfo {
    WindowInfo {
        label: facts.label,
        title: facts.title,
        url: facts.url,
        focused: facts.focused == Some(true),
        visible: facts.visible == Some(true),
        is_main: facts.label@ == "main"@,
    }
}

/// Whether a webview with this label is among `facts`.
pub open spec fn has_label(facts: Seq<WebviewFacts>, label: Seq<char>) -> bool {
    exists|i: int| 0 <= i < facts.len() && #[trigger] facts[i].label@ == label
}

/// What is listed of `facts`, those left out whose label is already among `seen`.
pub open spec fn infos_of(facts: Seq<WebviewFacts>, seen: Seq<WebviewFacts>) -> Seq<WindowInfo>
    decreases facts.len(),
{
    if facts.len() == 0 {
        Seq::empty()
    } else if has_label(seen, facts.last().label@) {
        infos_of(facts.drop_last(), seen)
    } else {
        infos_of(facts.drop_last(), seen).push(info_of(facts.last()))
    }
}

/// All that is listed: every window, and every webview that is not one of them.
pub open spec fn all_infos(
    windows: Seq<WebviewFacts>,
    webviews: Seq<WebviewFacts>,
) -> Seq<WindowInfo> {
    infos_of(windows, Seq::empty()) + infos_of(webviews, windows)
}

/// Whether `a` may stand before `b` in a listing: the main window comes first,
/// the others by their labels.
pub open spec fn may_precede(a: WindowInfo, b: WindowInfo) -> bool {
    a.is_main || (!b.is_main && !text::text_less(b.label@, a.label@))
}

/// Whether `list` is in the order of a listing.
pub open spec fn is_ordered(list: Seq<WindowInfo>) -> bool {
    forall|i: int, j: int|
        0 <= i < j < list.len() ==> may_precede(#[trigger] list[i], #[trigger] list[j])
}

/// Whether `list` lists these windows and webviews, in order.
pub open spec fn is_listing(
    windows: Seq<WebviewFacts>,
    webviews: Seq<WebviewFacts>,
    list: Seq<WindowInfo>,
) -> bool {
    &&& list.to_multiset() == all_infos(windows, webviews).to_multiset()
    &&& is_ordered(list)
}

/// What is listed of a webview.
fn into_info(facts: WebviewFacts) -> (info: WindowInfo)
    ensures
        info == info_of(facts),
{
    let is_main = facts.label == "main".to_owned();
    WindowInfo {
        label: facts.label,
        title: facts.title,
        url: facts.url,
        focused: match facts.focused {
            Some(focused) => focused,
            None => false,
        },
        visible: match facts.visible {
            Some(visible) => visible,
            None => false,
        },
        is_main,
    }
}

/// Whether `label` is among `labels`.
fn is_among(labels: &Vec<String>, label: &String) -> (r: bool)
    ensures
        r == exists|i: int| 0 <= i < labels.len() && #[trigger] labels@[i]@ == label@,
{
    let mut i: usize = 0;
    while i < labels.len()
        invariant
            i <= labels.len(),
            forall|j: int| 0 <= j < i ==> #[trigger] labels@[j]@ != label@,
        decreases labels.len() - i,
    {
        if labels[i] == *label {
            return true;
        }
        i = i + 1;
    }
    false
}

/// Whether `a` may stand before `b` in a listing.
fn goes_first(a: &WindowInfo, b: &WindowInfo) -> (r: bool)
    ensures
        r == may_precede(*a, *b),
{
    a.is_main || (!b.is_main && !text::is_less(b.label.as_str(), a.label.as_str()))
}

/// Of two windows, one may stand before the other.
proof fn lemma_may_precede_total(a: WindowInfo, b: WindowInfo)
    ensures
        may_precede(a, b) || may_precede(b, a),
{
    text::law_text_less_total(a.label@, b.label@);
    if text::text_less(a.label@, b.label@) && text::text_less(b.label@, a.label@) {
        text::law_text_less_transitive(a.label@, b.label@, a.label@);
        text::law_text_less_irreflexive(a.label@);
    }
}

/// The order of a listing is transitive.
proof fn lemma_may_precede_transitive(a: WindowInfo, b: WindowInfo, c: WindowInfo)
    requires
        may_precede(a, b),
        may_precede(b, c),
    ensures
        may_precede(a, c),
{
    if !a.is_main && text::text_less(c.label@, a.label@) {
        text::law_text_less_total(a.label@, b.label@);
        if text::text_less(a.label@, b.label@) {
            text::law_text_less_transitive(c.label@, a.label@, b.label@);
        }
    }
}

/// Puts `item` in its place in an ordered list.
fn insert_in_order(list: Vec<WindowInfo>, item: WindowInfo) -> (r: Vec<WindowInfo>)
    requires
        is_ordered(list@),
    ensures
        is_ordered(r@),
        r@.to_multiset() == list@.to_multiset().insert(item),
{
    let mut list = list;
    let ghost before = list@;
    let mut at: usize = 0;
    while at < list.len() && !goes_first(&item, &list[at])
        invariant
            at <= list.len(),
            list@ == before,
            forall|k: int| 0 <= k < at ==> !may_precede(item, #[trigger] list@[k]),
        decreases list.len() - at,
    {
        at = at + 1;
    }
    let ghost place: int = at as int;
    list.insert(at, item);
    proof {
        assert(list@ == before.insert(place, item));
        assert forall|i: int, j: int| 0 <= i < j < list@.len() implies may_precede(
            #[trigger] list@[i],
            #[trigger] list@[j],
        ) by {
            if i < place && j == place {
                assert(list@[i] == before[i]);
                lemma_may_precede_total(item, before[i]);
            } else if i == place {
                assert(list@[j] == before[j - 1]);
                if j - 1 > place {
                    assert(may_precede(before[place], before[j - 1]));
                    lemma_may_precede_transitive(item, before[place], before[j - 1]);
                }
            } else {
                let i2 = if i < place { i } else { i - 1 };
                let j2 = if j < place { j } else { j - 1 };
                assert(may_precede(before[i2], before[j2]));
            }
        }
        vstd::seq_lib::to_multiset_insert(before, place, item);
    }
    list
}

/// Brings a list in order.
fn in_order(items: Vec<WindowInfo>) -> (r: Vec<WindowInfo>)
    ensures
        is_ordered(r@),
        r@.to_multiset() == items@.to_multiset(),
{
    let mut r: Vec<WindowInfo> = Vec::new();
    let ghost all = items@;
    assert(all.take(0) == r@);
    for item in it: items
        invariant
            it.seq() == all,
            is_ordered(r@),
            r@.to_multiset() == all.take(it.index()).to_multiset(),
    {
        proof {
            let done = all.take(it.index());
            assert(all.take(it.index() + 1) == done.push(item));
            vstd::seq_lib::to_multiset_build(done, item);
        }
        r = insert_in_order(r, item);
    }
    assert(all.take(all.len() as int) == all);
    r
}

/// Lists all open webview windows and standalone webviews.
///
/// `windows` are the webview windows and `webviews` all webviews, in whatever
/// order they come. A webview that is already listed as a window is not listed
/// again. The main window comes first, the others by their labels.
pub fn list_windows(windows: Vec<WebviewFacts>, webviews: Vec<WebviewFacts>) -> (list: Vec<
    WindowInfo,
>)
    ensures
        is_listing(windows@, webviews@, list@),
{
    let mut list: Vec<WindowInfo> = Vec::new();
    let mut seen_labels: Vec<String> = Vec::new();
    let ghost all_windows = windows@;
    let ghost all_webviews = webviews@;
    for facts in it: windows
        invariant
            it.seq() == all_windows,
            list@ == infos_of(all_windows.take(it.index()), Seq::empty()),
            seen_labels.len() == it.index(),
            forall|i: int|
                0 <= i < it.index() ==> #[trigger] seen_labels@[i]@ == all_windows[i].label@,
    {
        assert(all_windows.take(it.index() + 1).drop_last() == all_windows.take(it.index()));
        seen_labels.push(facts.label.clone());
        list.push(into_info(facts));
    }
    assert(all_windows.take(all_windows.len() as int) == all_windows);
    assert(list@ + infos_of(all_webviews.take(0), all_windows) == list@);
    let ghost from_windows = list@;
    for facts in it: webviews
        invariant
            it.seq() == all_webviews,
            seen_labels.len() == all_windows.len(),
            forall|i: int|
                0 <= i < all_windows.len() ==> #[trigger] seen_labels@[i]@
                    == all_windows[i].label@,
            list@ == from_windows + infos_of(all_webviews.take(it.index()), all_windows),
    {
        assert(all_webviews.take(it.index() + 1).drop_last() == all_webviews.take(it.index()));
        let listed = is_among(&seen_labels, &facts.label);
        proof {
            if has_label(all_windows, facts.label@) {
                let i = choose|i: int|
                    0 <= i < all_windows.len() && #[trigger] all_windows[i].label@
                        == facts.label@;
                assert(seen_labels@[i]@ == facts.label@);
            }
            if listed {
                let i = choose|i: int|
                    0 <= i < seen_labels.len() && #[trigger] seen_labels@[i]@ == facts.label@;
                assert(all_windows[i].label@ == facts.label@);
            }
        }
        if !listed {
            list.push(into_info(facts));
        }
    }
    assert(all_webviews.take(all_webviews.len() as int) == all_webviews);
    in_order(list)
}

/// Whether no two webviews have the same label.
pub open spec fn distinct_labels(facts: Seq<WebviewFacts>) -> bool {
    forall|i: int, j: int|
        0 <= i < j < facts.len() ==> #[trigger] facts[i].label@ != #[trigger] facts[j].label@
}

/// Whether what is listed under `label` is listed once.
pub open spec fn lists_once(list: Seq<WindowInfo>, label: Seq<char>) -> bool {
    &&& exists|i: int| 0 <= i < list.len() && #[trigger] list[i].label@ == label
    &&& forall|i: int, j: int|
        0 <= i < list.len() && 0 <= j < list.len() && #[trigger] list[i].label@ == label
            && #[trigger] list[j].label@ == label ==> i == j
}

/// What stands in `infos_of`: every webview that is not left out, and no other.
proof fn lemma_infos_of(facts: Seq<WebviewFacts>, seen: Seq<WebviewFacts>)
    ensures
        forall|i: int|
            0 <= i < facts.len() && !has_label(seen, #[trigger] facts[i].label@) ==> infos_of(
                facts,
                seen,
            ).contains(info_of(facts[i])),
        forall|k: int|
            0 <= k < infos_of(facts, seen).len() ==> exists|i: int|
                0 <= i < facts.len() && info_of(#[trigger] facts[i]) == #[trigger] infos_of(
                    facts,
                    seen,
                )[k] && !has_label(seen, facts[i].label@),
    decreases facts.len(),
{
    if facts.len() > 0 {
        let init = facts.drop_last();
        lemma_infos_of(init, seen);
        let shorter = infos_of(init, seen);
        let longer = infos_of(facts, seen);
        assert(forall|k: int| 0 <= k < shorter.len() ==> longer[k] == shorter[k]);
        assert forall|i: int|
            0 <= i < facts.len() && !has_label(
                seen,
                #[trigger] facts[i].label@,
            ) implies longer.contains(info_of(facts[i])) by {
            if i < init.len() {
                assert(init[i] == facts[i]);
                assert(!has_label(seen, init[i].label@));
                let k = choose|k: int| 0 <= k < shorter.len() && shorter[k] == info_of(facts[i]);
                assert(longer[k] == info_of(facts[i]));
            } else {
                assert(longer[longer.len() - 1] == info_of(facts[i]));
            }
        }
        assert forall|k: int| 0 <= k < longer.len() implies exists|i: int|
            0 <= i < facts.len() && info_of(#[trigger] facts[i]) == #[trigger] longer[k]
                && !has_label(seen, facts[i].label@) by {
            if k < shorter.len() {
                let i = choose|i: int|
                    0 <= i < init.len() && info_of(#[trigger] init[i]) == shorter[k] && !has_label(
                        seen,
                        init[i].label@,
                    );
                assert(facts[i] == init[i]);
                assert(info_of(facts[i]) == longer[k] && !has_label(seen, facts[i].label@));
            } else {
                let i = facts.len() - 1;
                assert(info_of(facts[i]) == longer[k] && !has_label(seen, facts[i].label@));
            }
        }
    }
}

/// Where the labels of the webviews differ, those of `infos_of` do.
proof fn lemma_infos_of_distinct(facts: Seq<WebviewFacts>, seen: Seq<WebviewFacts>)
    requires
        distinct_labels(facts),
    ensures
        forall|a: int, b: int|
            0 <= a < b < infos_of(facts, seen).len() ==> #[trigger] infos_of(
                facts,
                seen,
            )[a].label@ != #[trigger] infos_of(facts, seen)[b].label@,
    decreases facts.len(),
{
    if facts.len() > 0 {
        let init = facts.drop_last();
        let shorter = infos_of(init, seen);
        let longer = infos_of(facts, seen);
        assert(distinct_labels(init)) by {
            assert(forall|i: int| 0 <= i < init.len() ==> init[i] == facts[i]);
        }
        lemma_infos_of_distinct(init, seen);
        lemma_infos_of(init, seen);
        assert forall|a: int, b: int| 0 <= a < b < longer.len() implies #[trigger] longer[a].label@
            != #[trigger] longer[b].label@ by {
            assert(longer[a] == shorter[a]);
            if b < shorter.len() {
                assert(longer[b] == shorter[b]);
            } else {
                let i = choose|i: int|
                    0 <= i < init.len() && info_of(#[trigger] init[i]) == shorter[a] && !has_label(
                        seen,
                        init[i].label@,
                    );
                assert(facts[i] == init[i]);
                assert(facts[i].label@ != facts[facts.len() - 1].label@);
            }
        }
    }
}

/// All that is listed has labels that differ, and tells rightly which is main.
proof fn lemma_all_infos(windows: Seq<WebviewFacts>, webviews: Seq<WebviewFacts>)
    requires
        distinct_labels(windows),
        distinct_labels(webviews),
    ensures
        forall|a: int, b: int|
            0 <= a < b < all_infos(windows, webviews).len() ==> #[trigger] all_infos(
                windows,
                webviews,
            )[a].label@ != #[trigger] all_infos(windows, webviews)[b].label@,
        forall|a: int|
            0 <= a < all_infos(windows, webviews).len() ==> (#[trigger] all_infos(
                windows,
                webviews,
            )[a]).is_main == (all_infos(windows, webviews)[a].label@ == "main"@),
{
    let none = Seq::<WebviewFacts>::empty();
    let first = infos_of(windows, none);
    let second = infos_of(webviews, windows);
    let all = all_infos(windows, webviews);
    lemma_infos_of(windows, none);
    lemma_infos_of(webviews, windows);
    lemma_infos_of_distinct(windows, none);
    lemma_infos_of_distinct(webviews, windows);
    assert forall|a: int, b: int| 0 <= a < b < all.len() implies #[trigger] all[a].label@
        != #[trigger] all[b].label@ by {
        if b < first.len() {
            assert(all[a] == first[a] && all[b] == first[b]);
        } else if a >= first.len() {
            assert(all[a] == second[a - first.len()] && all[b] == second[b - first.len()]);
        } else {
            assert(all[a] == first[a] && all[b] == second[b - first.len()]);
            let i = choose|i: int|
                0 <= i < windows.len() && info_of(#[trigger] windows[i]) == first[a] && !has_label(
                    none,
                    windows[i].label@,
                );
            assert(windows[i].label@ == first[a].label@);
        }
    }
    assert forall|a: int| 0 <= a < all.len() implies (#[trigger] all[a]).is_main == (all[a].label@
        == "main"@) by {
        if a < first.len() {
            assert(all[a] == first[a]);
        } else {
            assert(all[a] == second[a - first.len()]);
        }
    }
}

/// What a listing takes over from all that is to be listed.
pub(crate) proof fn lemma_listing(
    windows: Seq<WebviewFacts>,
    webviews: Seq<WebviewFacts>,
    list: Seq<WindowInfo>,
)
    requires
        distinct_labels(windows),
        distinct_labels(webviews),
        is_listing(windows, webviews, list),
    ensures
        forall|x: WindowInfo|
            #[trigger] list.contains(x) <==> all_infos(windows, webviews).contains(x),
        forall|i: int, j: int|
            0 <= i < list.len() && 0 <= j < list.len() && #[trigger] list[i].label@
                == #[trigger] list[j].label@ ==> i == j,
        forall|i: int|
            0 <= i < list.len() ==> (#[trigger] list[i]).is_main == (list[i].label@ == "main"@),
        list.no_duplicates(),
{
    let all = all_infos(windows, webviews);
    lemma_all_infos(windows, webviews);
    list.to_multiset_ensures();
    all.to_multiset_ensures();
    assert forall|x: WindowInfo| #[trigger] list.contains(x) <==> all.contains(x) by {
        assert(list.to_multiset().count(x) == all.to_multiset().count(x));
    }
    assert(all.no_duplicates());
    all.lemma_multiset_has_no_duplicates();
    list.lemma_multiset_has_no_duplicates_conv();
    assert forall|i: int, j: int|
        0 <= i < list.len() && 0 <= j < list.len() && #[trigger] list[i].label@
            == #[trigger] list[j].label@ implies i == j by {
        assert(list.contains(list[i]));
        assert(list.contains(list[j]));
        let a = choose|a: int| 0 <= a < all.len() && all[a] == list[i];
        let b = choose|b: int| 0 <= b < all.len() && all[b] == list[j];
        if a < b {
            assert(all[a].label@ != all[b].label@);
        } else if b < a {
            assert(all[b].label@ != all[a].label@);
        }
    }
    assert forall|i: int| 0 <= i < list.len() implies (#[trigger] list[i]).is_main == (
    list[i].label@ == "main"@) by {
        assert(list.contains(list[i]));
        let a = choose|a: int| 0 <= a < all.len() && all[a] == list[i];
        assert(all[a].is_main == (all[a].label@ == "main"@));
    }
}

/// What is to be listed under which label.
proof fn lemma_all_infos_labels(
    windows: Seq<WebviewFacts>,
    webviews: Seq<WebviewFacts>,
    label: Seq<char>,
)
    ensures
        (has_label(windows, label) || has_label(webviews, label)) <==> exists|x: WindowInfo|
            #[trigger] all_infos(windows, webviews).contains(x) && x.label@ == label,
{
    let none = Seq::<WebviewFacts>::empty();
    let first = infos_of(windows, none);
    let second = infos_of(webviews, windows);
    let all = all_infos(windows, webviews);
    lemma_infos_of(windows, none);
    lemma_infos_of(webviews, windows);
    if has_label(windows, label) {
        let i = choose|i: int| 0 <= i < windows.len() && #[trigger] windows[i].label@ == label;
        assert(!has_label(none, windows[i].label@));
        let x = info_of(windows[i]);
        let k = choose|k: int| 0 <= k < first.len() && first[k] == x;
        assert(all[k] == x);
        assert(all.contains(x) && x.label@ == label);
    } else if has_label(webviews, label) {
        let i = choose|i: int| 0 <= i < webviews.len() && #[trigger] webviews[i].label@ == label;
        assert(!has_label(windows, webviews[i].label@));
        let x = info_of(webviews[i]);
        let k = choose|k: int| 0 <= k < second.len() && second[k] == x;
        assert(all[first.len() + k] == x);
        assert(all.contains(x) && x.label@ == label);
    }
    assert forall|x: WindowInfo| #[trigger]
        all.contains(x) && x.label@ == label implies has_label(windows, label) || has_label(
        webviews,
        label,
    ) by {
        let k = choose|k: int| 0 <= k < all.len() && all[k] == x;
        if k < first.len() {
            assert(first[k] == x);
            let i = choose|i: int|
                0 <= i < windows.len() && info_of(#[trigger] windows[i]) == first[k]
                    && !has_label(none, windows[i].label@);
            assert(windows[i].label@ == label);
        } else {
            let k2 = k - first.len();
            assert(second[k2] == x);
            let i = choose|i: int|
                0 <= i < webviews.len() && info_of(#[trigger] webviews[i]) == second[k2]
                    && !has_label(windows, webviews[i].label@);
            assert(webviews[i].label@ == label);
        }
    }
}

/// Every window and every webview is listed, each label once, and nothing else.
pub proof fn law_each_listed_once(
    windows: Seq<WebviewFacts>,
    webviews: Seq<WebviewFacts>,
    list: Seq<WindowInfo>,
    label: Seq<char>,
)
    requires
        distinct_labels(windows),
        distinct_labels(webviews),
        is_listing(windows, webviews, list),
    ensures
        (has_label(windows, label) || has_label(webviews, label)) <==> lists_once(list, label),
{
    lemma_listing(windows, webviews, list);
    lemma_all_infos_labels(windows, webviews, label);
    let all = all_infos(windows, webviews);
    if has_label(windows, label) || has_label(webviews, label) {
        let x = choose|x: WindowInfo| #[trigger] all.contains(x) && x.label@ == label;
        assert(list.contains(x));
        let i = choose|i: int| 0 <= i < list.len() && list[i] == x;
        assert(list[i].label@ == label);
    }
    if lists_once(list, label) {
        let i = choose|i: int| 0 <= i < list.len() && #[trigger] list[i].label@ == label;
        assert(list.contains(list[i]));
        assert(all.contains(list[i]));
    }
}

/// The main window, where there is one, is the first of a listing.
pub proof fn law_main_first(
    windows: Seq<WebviewFacts>,
    webviews: Seq<WebviewFacts>,
    list: Seq<WindowInfo>,
)
    requires
        distinct_labels(windows),
        distinct_labels(webviews),
        is_listing(windows, webviews, list),
        has_label(windows, "main"@) || has_label(webviews, "main"@),
    ensures
        list.len() > 0,
        list[0].label@ == "main"@,
{
    lemma_listing(windows, webviews, list);
    law_each_listed_once(windows, webviews, list, "main"@);
    let i = choose|i: int| 0 <= i < list.len() && #[trigger] list[i].label@ == "main"@;
    if i > 0 {
        assert(may_precede(list[0], list[i]));
    }
}

/// But for the main window, a listing goes by the labels, in ascending order.
pub proof fn law_others_by_label(
    windows: Seq<WebviewFacts>,
    webviews: Seq<WebviewFacts>,
    list: Seq<WindowInfo>,
    i: int,
    j: int,
)
    requires
        distinct_labels(windows),
        distinct_labels(webviews),
        is_listing(windows, webviews, list),
        0 <= i < j < list.len(),
        list[i].label@ != "main"@,
    ensures
        text::text_less(list[i].label@, list[j].label@),
{
    lemma_listing(windows, webviews, list);
    assert(may_precede(list[i], list[j]));
    text::law_text_less_total(list[i].label@, list[j].label@);
}

/// Two ordered lists of the same windows are the same list.
proof fn lemma_ordered_unique(a: Seq<WindowInfo>, b: Seq<WindowInfo>)
    requires
        is_ordered(a),
        is_ordered(b),
        a.to_multiset() == b.to_multiset(),
        forall|i: int, j: int|
            0 <= i < a.len() && 0 <= j < a.len() && #[trigger] a[i].label@
                == #[trigger] a[j].label@ ==> i == j,
        forall|i: int|
            0 <= i < a.len() ==> (#[trigger] a[i]).is_main == (a[i].label@ == "main"@),
    ensures
        a == b,
    decreases a.len(),
{
    a.to_multiset_ensures();
    b.to_multiset_ensures();
    assert(a.len() == b.len());
    if a.len() == 0 {
        assert(a == b);
    } else {
        assert(a.contains(a[0]));
        assert(b.contains(b[0]));
        assert(b.to_multiset().count(a[0]) > 0);
        assert(a.to_multiset().count(b[0]) > 0);
        let i = choose|i: int| 0 <= i < a.len() && a[i] == b[0];
        let j = choose|j: int| 0 <= j < b.len() && b[j] == a[0];
        if i > 0 {
            assert(j > 0);
            assert(may_precede(a[0], a[i]));
            assert(may_precede(b[0], b[j]));
            text::law_text_less_total(a[0].label@, a[i].label@);
            assert(a[0].label@ == a[i].label@);
        }
        let a2 = a.drop_first();
        let b2 = b.drop_first();
        assert(a2 == a.remove(0));
        assert(b2 == b.remove(0));
        assert(a2.to_multiset() == b2.to_multiset());
        assert(forall|k: int| 0 <= k < a2.len() ==> a2[k] == a[k + 1]);
        assert(forall|k: int| 0 <= k < b2.len() ==> b2[k] == b[k + 1]);
        lemma_ordered_unique(a2, b2);
        assert(a == seq![a[0]] + a2);
        assert(b == seq![b[0]] + b2);
    }
}

/// What is listed of some webviews is listed of more of them, where no more are
/// left out.
proof fn lemma_infos_of_contains(
    facts: Seq<WebviewFacts>,
    seen: Seq<WebviewFacts>,
    facts2: Seq<WebviewFacts>,
    seen2: Seq<WebviewFacts>,
    x: WindowInfo,
)
    requires
        forall|f: WebviewFacts| #[trigger] facts.contains(f) ==> facts2.contains(f),
        forall|f: WebviewFacts| #[trigger] seen2.contains(f) ==> seen.contains(f),
        infos_of(facts, seen).contains(x),
    ensures
        infos_of(facts2, seen2).contains(x),
{
    lemma_infos_of(facts, seen);
    lemma_infos_of(facts2, seen2);
    let k = choose|k: int| 0 <= k < infos_of(facts, seen).len() && infos_of(facts, seen)[k] == x;
    let i = choose|i: int|
        0 <= i < facts.len() && info_of(#[trigger] facts[i]) == infos_of(facts, seen)[k]
            && !has_label(seen, facts[i].label@);
    assert(facts.contains(facts[i]));
    let j = choose|j: int| 0 <= j < facts2.len() && facts2[j] == facts[i];
    if has_label(seen2, facts2[j].label@) {
        let s = choose|s: int|
            0 <= s < seen2.len() && #[trigger] seen2[s].label@ == facts2[j].label@;
        assert(seen2.contains(seen2[s]));
        let t = choose|t: int| 0 <= t < seen.len() && seen[t] == seen2[s];
        assert(seen[t].label@ == facts[i].label@);
    }
    assert(!has_label(seen2, facts2[j].label@));
}

/// Lists of the same webviews hold the same webviews.
proof fn lemma_same_members(a: Seq<WebviewFacts>, b: Seq<WebviewFacts>)
    requires
        a.to_multiset() == b.to_multiset(),
    ensures
        forall|f: WebviewFacts| #[trigger] a.contains(f) <==> b.contains(f),
        forall|f: WebviewFacts| #[trigger] b.contains(f) <==> a.contains(f),
{
    a.to_multiset_ensures();
    b.to_multiset_ensures();
    assert forall|f: WebviewFacts| a.contains(f) <==> b.contains(f) by {
        assert(a.contains(f) <==> a.to_multiset().count(f) > 0);
        assert(b.contains(f) <==> b.to_multiset().count(f) > 0);
    }
}

/// What is to be listed of windows and webviews is to be listed of the same ones
/// in another order.
proof fn lemma_all_infos_contains(
    windows: Seq<WebviewFacts>,
    webviews: Seq<WebviewFacts>,
    windows2: Seq<WebviewFacts>,
    webviews2: Seq<WebviewFacts>,
    x: WindowInfo,
)
    requires
        forall|f: WebviewFacts| #[trigger] windows.contains(f) ==> windows2.contains(f),
        forall|f: WebviewFacts| #[trigger] windows2.contains(f) ==> windows.contains(f),
        forall|f: WebviewFacts| #[trigger] webviews.contains(f) ==> webviews2.contains(f),
        all_infos(windows, webviews).contains(x),
    ensures
        all_infos(windows2, webviews2).contains(x),
{
    let none = Seq::<WebviewFacts>::empty();
    let first = infos_of(windows, none);
    let second = infos_of(webviews, windows);
    let first2 = infos_of(windows2, none);
    let second2 = infos_of(webviews2, windows2);
    let all = all_infos(windows, webviews);
    let all2 = all_infos(windows2, webviews2);
    let k = choose|k: int| 0 <= k < all.len() && all[k] == x;
    if k < first.len() {
        assert(first[k] == x);
        lemma_infos_of_contains(windows, none, windows2, none, x);
        let m = choose|m: int| 0 <= m < first2.len() && first2[m] == x;
        assert(all2[m] == x);
    } else {
        assert(second[k - first.len()] == x);
        lemma_infos_of_contains(webviews, windows, webviews2, windows2, x);
        let m = choose|m: int| 0 <= m < second2.len() && second2[m] == x;
        assert(all2[first2.len() + m] == x);
    }
}

/// The order in which windows and webviews are found does not show in a listing.
pub proof fn law_listing_ignores_order(
    windows: Seq<WebviewFacts>,
    webviews: Seq<WebviewFacts>,
    list: Seq<WindowInfo>,
    windows2: Seq<WebviewFacts>,
    webviews2: Seq<WebviewFacts>,
    list2: Seq<WindowInfo>,
)
    requires
        distinct_labels(windows),
        distinct_labels(webviews),
        distinct_labels(windows2),
        distinct_labels(webviews2),
        windows.to_multiset() == windows2.to_multiset(),
        webviews.to_multiset() == webviews2.to_multiset(),
        is_listing(windows, webviews, list),
        is_listing(windows2, webviews2, list2),
    ensures
        list == list2,
{
    let all = all_infos(windows, webviews);
    let all2 = all_infos(windows2, webviews2);
    lemma_same_members(windows, windows2);
    lemma_same_members(webviews, webviews2);
    lemma_listing(windows, webviews, list);
    lemma_listing(windows2, webviews2, list2);
    assert forall|x: WindowInfo| #[trigger] all.contains(x) <==> all2.contains(x) by {
        if all.contains(x) {
            lemma_all_infos_contains(windows, webviews, windows2, webviews2, x);
        }
        if all2.contains(x) {
            lemma_all_infos_contains(windows2, webviews2, windows, webviews, x);
        }
    }
    list.lemma_multiset_has_no_duplicates();
    list2.lemma_multiset_has_no_duplicates();
    list.to_multiset_ensures();
    list2.to_multiset_ensures();
    assert(list.to_multiset() =~= list2.to_multiset()) by {
        assert forall|x: WindowInfo| list.to_multiset().count(x) == list2.to_multiset().count(
            x,
        ) by {
            assert(list.contains(x) <==> list2.contains(x));
        }
    }
    lemma_ordered_unique(list, list2);
}

} // verus!
