//! Laws of JSON values.

use crate::json;
use crate::json::Json;
use vstd::prelude::*;

verus! {

/// Whether the member `i` is the first that is called `key`.
pub open spec fn is_first(members: Seq<(String, Json)>, i: int, key: Seq<char>) -> bool {
    &&& 0 <= i < members.len()
    &&& members[i].0@ == key
    &&& forall|j: int| 0 <= j < i ==> #[trigger] members[j].0@ != key
}

/// Whether no member is called `key`.
pub open spec fn is_missing(members: Seq<(String, Json)>, key: Seq<char>) -> bool {
    forall|i: int| 0 <= i < members.len() ==> #[trigger] members[i].0@ != key
}

/// The first member of a name is the one that is found, whatever stands behind it.
pub proof fn law_first_member_is_found(members: Seq<(String, Json)>, i: int, key: Seq<char>)
    requires
        is_first(members, i, key),
    ensures
        json::member(members, key) == Some(members[i].1),
    decreases members.len(),
{
    if i > 0 {
        let rest = members.drop_first();
        assert(members[0].0@ != key);
        assert(forall|k: int| 0 <= k < rest.len() ==> #[trigger] rest[k] == members[k + 1]);
        law_first_member_is_found(rest, i - 1, key);
    }
}

/// A member is called `key`, or none is.
pub(crate) proof fn lemma_first_or_missing(members: Seq<(String, Json)>, key: Seq<char>)
    ensures
        is_missing(members, key) || exists|i: int| #[trigger] is_first(members, i, key),
        is_missing(members, key) ==> json::member(members, key) is None,
    decreases members.len(),
{
    json::law_member_missing(members, key);
    if !is_missing(members, key) {
        let init = members.drop_last();
        lemma_first_or_missing(init, key);
        assert(forall|k: int| 0 <= k < init.len() ==> #[trigger] init[k] == members[k]);
        if is_missing(init, key) {
            let last = members.len() - 1;
            assert forall|j: int| 0 <= j < last implies #[trigger] members[j].0@ != key by {
                assert(init[j].0@ != key);
            }
            assert(is_first(members, last, key));
        } else {
            let i = choose|i: int| #[trigger] is_first(init, i, key);
            assert forall|j: int| 0 <= j < i implies #[trigger] members[j].0@ != key by {
                assert(init[j].0@ != key);
            }
            assert(is_first(members, i, key));
        }
    }
}

/// A text is read as any JSON value just if `serde_json` can read it, as what that
/// makes of it, and otherwise its complaint is handed on.
pub proof fn law_value_is_read(source: &str, r: Result<Json, String>)
    requires
        call_ensures(json::parse_json, (source,), r),
    ensures
        r is Ok <==> json::parsed_value(source@) is Ok,
        r is Ok ==> r->Ok_0 == json::value_contents(json::parsed_value(source@)->Ok_0),
        r is Err ==> r->Err_0@ == json::error_message(json::parsed_value(source@)->Err_0),
{
}

/// A text is read as the members of an object just if `serde_json` can read it as
/// one, and otherwise its complaint is handed on.
pub proof fn law_members_are_read(source: &str, r: Result<Vec<(String, Json)>, String>)
    requires
        call_ensures(json::parse_members, (source,), r),
    ensures
        r is Ok <==> json::parsed_object(source@) is Ok,
        r is Ok ==> Json::Object(r->Ok_0) == json::value_contents(
            json::parsed_object(source@)->Ok_0,
        ),
        r is Ok ==> forall|i: int, j: int|
            0 <= i < j < r->Ok_0@.len() ==> #[trigger] r->Ok_0@[i].0@
                != #[trigger] r->Ok_0@[j].0@,
        r is Err ==> r->Err_0@ == json::error_message(json::parsed_object(source@)->Err_0),
{
}

} // verus!
