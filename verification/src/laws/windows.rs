//! Laws of listing windows.

use crate::windows;
use crate::windows::{WebviewFacts, WindowInfo};
use vstd::prelude::*;

verus! {

/// Whether `info` says of a webview what is known of it, fact by fact: its label,
/// its title and its url as they are, whether it is known to have focus, whether
/// it is known to be visible, and whether it is called `main`.
pub open spec fn says_of(info: WindowInfo, facts: WebviewFacts) -> bool {
    &&& info.label@ == facts.label@
    &&& info.title == facts.title
    &&& info.url == facts.url
    &&& info.focused <==> facts.focused == Some(true)
    &&& info.visible <==> facts.visible == Some(true)
    &&& info.is_main <==> facts.label@ == "main"@
}

/// Whether none of `facts` has the label `label`.
pub open spec fn is_free(facts: Seq<WebviewFacts>, label: Seq<char>) -> bool {
    forall|i: int| 0 <= i < facts.len() ==> #[trigger] facts[i].label@ != label
}

/// Whether no two of `facts` have the same label.
pub open spec fn differ(facts: Seq<WebviewFacts>) -> bool {
    forall|i: int, j: int|
        0 <= i < facts.len() && 0 <= j < facts.len() && #[trigger] facts[i].label@
            == #[trigger] facts[j].label@ ==> i == j
}

/// What stands among the entries: those that say of a webview that is not left out
/// what is known of it.
proof fn lemma_infos(facts: Seq<WebviewFacts>, seen: Seq<WebviewFacts>)
    ensures
        forall|k: int|
            0 <= k < windows::infos_of(facts, seen).len() ==> exists|i: int|
                0 <= i < facts.len() && says_of(
                    #[trigger] windows::infos_of(facts, seen)[k],
                    #[trigger] facts[i],
                ) && is_free(seen, facts[i].label@),
        forall|i: int|
            0 <= i < facts.len() && is_free(seen, #[trigger] facts[i].label@) ==> exists|k: int|
                0 <= k < windows::infos_of(facts, seen).len() && says_of(
                    #[trigger] windows::infos_of(facts, seen)[k],
                    facts[i],
                ),
    decreases facts.len(),
{
    let longer = windows::infos_of(facts, seen);
    if facts.len() > 0 {
        let init = facts.drop_last();
        let last = facts.last();
        let shorter = windows::infos_of(init, seen);
        lemma_infos(init, seen);
        assert(forall|k: int| 0 <= k < shorter.len() ==> #[trigger] longer[k] == shorter[k]);
        assert(forall|i: int| 0 <= i < init.len() ==> #[trigger] init[i] == facts[i]);
        assert(windows::has_label(seen, last.label@) <==> !is_free(seen, last.label@));
        assert forall|k: int| 0 <= k < longer.len() implies exists|i: int|
            0 <= i < facts.len() && says_of(#[trigger] longer[k], #[trigger] facts[i]) && is_free(
                seen,
                facts[i].label@,
            ) by {
            if k < shorter.len() {
                let i = choose|i: int|
                    0 <= i < init.len() && says_of(shorter[k], #[trigger] init[i]) && is_free(
                        seen,
                        init[i].label@,
                    );
                assert(says_of(longer[k], facts[i]));
            } else {
                assert(says_of(longer[k], facts[facts.len() - 1]));
            }
        }
        assert forall|i: int|
            0 <= i < facts.len() && is_free(seen, #[trigger] facts[i].label@) implies exists|k: int|
            0 <= k < longer.len() && says_of(#[trigger] longer[k], facts[i]) by {
            if i < init.len() {
                assert(is_free(seen, init[i].label@));
                let k = choose|k: int|
                    0 <= k < shorter.len() && says_of(#[trigger] shorter[k], init[i]);
                assert(says_of(longer[k], facts[i]));
            } else {
                assert(says_of(longer[longer.len() - 1], facts[i]));
            }
        }
    }
}

/// Where a listing takes its entries from, and where those go that it lists.
proof fn lemma_listing(
    found: Seq<WebviewFacts>,
    others: Seq<WebviewFacts>,
    list: Seq<WindowInfo>,
)
    requires
        windows::is_listing(found, others, list),
    ensures
        forall|n: int|
            0 <= n < list.len() ==> {
                ||| exists|i: int|
                    0 <= i < found.len() && says_of(#[trigger] list[n], #[trigger] found[i])
                ||| exists|i: int|
                    0 <= i < others.len() && says_of(list[n], #[trigger] others[i]) && is_free(
                        found,
                        others[i].label@,
                    )
            },
        forall|i: int|
            0 <= i < found.len() ==> exists|n: int|
                0 <= n < list.len() && says_of(#[trigger] list[n], #[trigger] found[i]),
        forall|i: int|
            0 <= i < others.len() && is_free(found, #[trigger] others[i].label@) ==> exists|n: int|
                0 <= n < list.len() && says_of(#[trigger] list[n], others[i]),
{
    let none = Seq::<WebviewFacts>::empty();
    let first = windows::infos_of(found, none);
    let second = windows::infos_of(others, found);
    let all = windows::all_infos(found, others);
    lemma_infos(found, none);
    lemma_infos(others, found);
    list.to_multiset_ensures();
    all.to_multiset_ensures();
    assert forall|x: WindowInfo| #[trigger] list.contains(x) <==> all.contains(x) by {
        assert(list.to_multiset().count(x) == all.to_multiset().count(x));
    }
    assert forall|n: int| 0 <= n < list.len() implies {
        ||| exists|i: int| 0 <= i < found.len() && says_of(#[trigger] list[n], #[trigger] found[i])
        ||| exists|i: int|
            0 <= i < others.len() && says_of(list[n], #[trigger] others[i]) && is_free(
                found,
                others[i].label@,
            )
    } by {
        assert(list.contains(list[n]));
        let k = choose|k: int| 0 <= k < all.len() && all[k] == list[n];
        if k < first.len() {
            assert(all[k] == first[k]);
        } else {
            assert(all[k] == second[k - first.len()]);
        }
    }
    assert forall|i: int| 0 <= i < found.len() implies exists|n: int|
        0 <= n < list.len() && says_of(#[trigger] list[n], #[trigger] found[i]) by {
        assert(is_free(none, found[i].label@));
        let k = choose|k: int| 0 <= k < first.len() && says_of(#[trigger] first[k], found[i]);
        assert(all[k] == first[k]);
        assert(all.contains(first[k]));
        assert(list.contains(first[k]));
        let n = choose|n: int| 0 <= n < list.len() && list[n] == first[k];
        assert(says_of(list[n], found[i]));
    }
    assert forall|i: int| 0 <= i < others.len() && is_free(found, #[trigger] others[i].label@) implies exists|
        n: int,
    | 0 <= n < list.len() && says_of(#[trigger] list[n], others[i]) by {
        let k = choose|k: int| 0 <= k < second.len() && says_of(#[trigger] second[k], others[i]);
        assert(all[first.len() + k] == second[k]);
        assert(all.contains(second[k]));
        assert(list.contains(second[k]));
        let n = choose|n: int| 0 <= n < list.len() && list[n] == second[k];
        assert(says_of(list[n], others[i]));
    }
}

/// Every entry of a listing says what is known of a window, or of a webview whose
/// label no window has. Nothing is made up and nothing is kept back, whatever else
/// is known of it.
pub proof fn law_entry_says_what_is_known(
    found: Vec<WebviewFacts>,
    others: Vec<WebviewFacts>,
    list: Vec<WindowInfo>,
    n: int,
)
    requires
        call_ensures(windows::list_windows, (found, others), list),
        0 <= n < list@.len(),
    ensures
        (exists|i: int| 0 <= i < found@.len() && says_of(list@[n], #[trigger] found@[i])) || (
        exists|i: int|
            0 <= i < others@.len() && says_of(list@[n], #[trigger] others@[i]) && is_free(
                found@,
                others@[i].label@,
            )),
{
    lemma_listing(found@, others@, list@);
}

/// Every window is listed, and so is every webview whose label no window has.
pub proof fn law_none_is_left_out(
    found: Vec<WebviewFacts>,
    others: Vec<WebviewFacts>,
    list: Vec<WindowInfo>,
    i: int,
)
    requires
        call_ensures(windows::list_windows, (found, others), list),
    ensures
        0 <= i < found@.len() ==> exists|n: int|
            0 <= n < list@.len() && says_of(#[trigger] list@[n], found@[i]),
        0 <= i < others@.len() && is_free(found@, others@[i].label@) ==> exists|n: int|
            0 <= n < list@.len() && says_of(#[trigger] list@[n], others@[i]),
{
    lemma_listing(found@, others@, list@);
}

/// What is listed under a label is what is known of the window of that label, each
/// fact for itself, or where no window has it, of the webview.
pub proof fn law_entry_goes_by_its_label(
    found: Vec<WebviewFacts>,
    others: Vec<WebviewFacts>,
    list: Vec<WindowInfo>,
    n: int,
    i: int,
)
    requires
        call_ensures(windows::list_windows, (found, others), list),
        differ(found@),
        differ(others@),
        0 <= n < list@.len(),
    ensures
        0 <= i < found@.len() && list@[n].label@ == found@[i].label@ ==> {
            &&& list@[n].title == found@[i].title
            &&& list@[n].url == found@[i].url
            &&& list@[n].focused <==> found@[i].focused == Some(true)
            &&& list@[n].visible <==> found@[i].visible == Some(true)
        },
        0 <= i < others@.len() && list@[n].label@ == others@[i].label@ && is_free(
            found@,
            others@[i].label@,
        ) ==> {
            &&& list@[n].title == others@[i].title
            &&& list@[n].url == others@[i].url
            &&& list@[n].focused <==> others@[i].focused == Some(true)
            &&& list@[n].visible <==> others@[i].visible == Some(true)
        },
        list@[n].is_main <==> list@[n].label@ == "main"@,
{
    law_entry_says_what_is_known(found, others, list, n);
    if exists|k: int| 0 <= k < found@.len() && says_of(list@[n], #[trigger] found@[k]) {
        let k = choose|k: int| 0 <= k < found@.len() && says_of(list@[n], #[trigger] found@[k]);
        assert(found@[k].label@ == list@[n].label@);
    } else {
        let k = choose|k: int|
            0 <= k < others@.len() && says_of(list@[n], #[trigger] others@[k]) && is_free(
                found@,
                others@[k].label@,
            );
        assert(others@[k].label@ == list@[n].label@);
    }
}

/// Labels that differ pairwise, in the form that a listing asks for.
proof fn lemma_differ(facts: Seq<WebviewFacts>)
    requires
        differ(facts),
    ensures
        windows::distinct_labels(facts),
{
}

/// A listing names each label once. `main` stands before all others, and those go
/// by their labels, in ascending order.
pub proof fn law_listing_is_in_order(
    found: Vec<WebviewFacts>,
    others: Vec<WebviewFacts>,
    list: Vec<WindowInfo>,
    n: int,
    m: int,
)
    requires
        call_ensures(windows::list_windows, (found, others), list),
        differ(found@),
        differ(others@),
        0 <= n < m < list@.len(),
    ensures
        list@[n].label@ != list@[m].label@,
        list@[m].label@ != "main"@,
        list@[n].label@ != "main"@ ==> crate::text::text_less(
            list@[n].label@,
            list@[m].label@,
        ),
{
    lemma_differ(found@);
    lemma_differ(others@);
    windows::lemma_listing(found@, others@, list@);
    if list@[n].label@ == list@[m].label@ {
        assert(n == m);
    }
    if list@[n].label@ != "main"@ {
        windows::law_others_by_label(found@, others@, list@, n, m);
    }
    assert(windows::may_precede(list@[n], list@[m]));
}

/// How many entries a listing has: one for each window, and one for each webview
/// whose label no window has.
pub proof fn law_listing_length(
    found: Vec<WebviewFacts>,
    others: Vec<WebviewFacts>,
    list: Vec<WindowInfo>,
)
    requires
        call_ensures(windows::list_windows, (found, others), list),
    ensures
        list@.len() == found@.len() + others@.filter(
            |facts: WebviewFacts| is_free(found@, facts.label@),
        ).len(),
{
    let none = Seq::<WebviewFacts>::empty();
    let all = windows::all_infos(found@, others@);
    list@.to_multiset_ensures();
    all.to_multiset_ensures();
    lemma_length(found@, none);
    lemma_length(others@, found@);
    assert forall|i: int| 0 <= i < found@.len() implies #[trigger] is_free(
        none,
        found@[i].label@,
    ) by {}
    lemma_filter_all(found@, none);
}

/// How many entries there are.
proof fn lemma_length(facts: Seq<WebviewFacts>, seen: Seq<WebviewFacts>)
    ensures
        windows::infos_of(facts, seen).len() == facts.filter(
            |one: WebviewFacts| is_free(seen, one.label@),
        ).len(),
    decreases facts.len(),
{
    reveal(Seq::filter);
    if facts.len() > 0 {
        lemma_length(facts.drop_last(), seen);
        assert(windows::has_label(seen, facts.last().label@) <==> !is_free(
            seen,
            facts.last().label@,
        ));
    }
}

/// Where none is left out, all are kept.
proof fn lemma_filter_all(facts: Seq<WebviewFacts>, seen: Seq<WebviewFacts>)
    requires
        seen.len() == 0,
    ensures
        facts.filter(|one: WebviewFacts| is_free(seen, one.label@)).len() == facts.len(),
    decreases facts.len(),
{
    reveal(Seq::filter);
    if facts.len() > 0 {
        lemma_filter_all(facts.drop_last(), seen);
    }
}

} // verus!
