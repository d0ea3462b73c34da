//! The payload schemas of the webhooks that a document declares under the
//! extension `x-webhooks`: for each webhook and each method, the schema
//! that the JSON request body refers to.

use vstd::prelude::*;
use crate::json::{find_member, json_text, member_value, members_view, values_view, JsonMember, JsonValue, JsonView};
use crate::name_map::NameSet;
use crate::text::{split, split_on, texts};

verus! {

/// The member named `key` of a JSON object; `None` where `v` is no object
/// or has no such member.
pub open spec fn json_get(v: Option<JsonView>, key: Seq<char>) -> Option<JsonView> {
    match v {
        Some(JsonView::Object(members)) => member_value(members, key),
        _ => None,
    }
}

/// The `$ref` of the schema of the JSON request body of a webhook method.
pub open spec fn webhook_ref(method: JsonView) -> Option<Seq<char>> {
    match json_get(
        json_get(
            json_get(json_get(json_get(Some(method), "requestBody"@), "content"@), "application/json"@),
            "schema"@,
        ),
        "$ref"@,
    ) {
        Some(v) => json_text(v),
        None => None,
    }
}

/// The schema name that a reference ends in: what follows its last `/`.
pub open spec fn last_segment(reference: Seq<char>) -> Seq<char> {
    split_on(reference, '/').last()
}

/// The members of a JSON object; none where the value is no object.
pub open spec fn members_of(v: JsonView) -> Seq<(Seq<char>, JsonView)> {
    match v {
        JsonView::Object(members) => members,
        _ => Seq::empty(),
    }
}

/// The schema names that the methods of one webhook refer to.
pub open spec fn webhook_names_of(webhook: JsonView) -> Set<Seq<char>> {
    Set::new(
        |n: Seq<char>|
            exists|j: int|
                0 <= j < members_of(webhook).len() && #[trigger] webhook_ref(members_of(webhook)[j].1) is Some
                    && last_segment(webhook_ref(members_of(webhook)[j].1)->0) == n,
    )
}

/// The schema names that the webhooks of a document refer to.
pub open spec fn webhook_names(extensions: Seq<(Seq<char>, JsonView)>) -> Set<Seq<char>> {
    match member_value(extensions, "x-webhooks"@) {
        None => Set::empty(),
        Some(webhooks) => Set::new(
            |n: Seq<char>|
                exists|i: int|
                    0 <= i < members_of(webhooks).len() && #[trigger] webhook_names_of(
                        members_of(webhooks)[i].1,
                    ).contains(n),
        ),
    }
}

/// The member named `key` of a JSON object.
fn get<'a>(v: Option<&'a JsonValue>, key: &str) -> (r: Option<&'a JsonValue>)
    ensures
        match r {
            Some(found) => json_get(
                match v {
                    Some(x) => Some(x@),
                    None => None,
                },
                key@,
            ) == Some(found@),
            None => json_get(
                match v {
                    Some(x) => Some(x@),
                    None => None,
                },
                key@,
            ) is None,
        },
{
    match v {
        Some(value) => match value.as_object() {
            Some(members) => find_member(members, key),
            None => None,
        },
        None => None,
    }
}

/// The schema name that the JSON request body of a webhook method refers to.
fn method_schema_name(method: &JsonValue) -> (r: Option<String>)
    ensures
        match r {
            Some(name) => webhook_ref(method@) is Some && name@ == last_segment(webhook_ref(method@)->0),
            None => webhook_ref(method@) is None,
        },
{
    let body = get(Some(method), "requestBody");
    let content = get(body, "content");
    let json = get(content, "application/json");
    let schema = get(json, "schema");
    let reference = match get(schema, "$ref") {
        Some(v) => match v.as_str() {
            Some(s) => s,
            None => {
                return None;
            },
        },
        None => {
            return None;
        },
    };
    let mut parts = split(reference, '/');
    let count = parts.len();
    assert(texts(parts@).len() == count);
    assert(count > 0);
    assert(texts(parts@).last() == parts@[count - 1]@);
    parts.pop()
}

/// Adds to `into` the schema names that the methods of one webhook refer
/// to.
fn add_webhook(webhook: &JsonValue, into: &mut NameSet)
    ensures
        final(into).names() == old(into).names().union(webhook_names_of(webhook@)),
{
    match webhook.as_object() {
        None => {
            assert(webhook_names_of(webhook@) =~= Set::<Seq<char>>::empty());
            assert(into.names().union(webhook_names_of(webhook@)) =~= into.names());
        },
        Some(methods) => {
            let ghost ms = members_view(methods@);
            let mut j: usize = 0;
            while j < methods.len()
                invariant
                    j <= methods.len(),
                    ms == members_view(methods@),
                    ms == members_of(webhook@),
                    forall|n: Seq<char>| #[trigger]
                        into.names().contains(n) <==> (old(into).names().contains(n) || exists|k: int|
                            0 <= k < j && #[trigger] webhook_ref(ms[k].1) is Some && last_segment(
                                webhook_ref(ms[k].1)->0,
                            ) == n),
                decreases methods.len() - j,
            {
                let ghost before = into.names();
                assert(ms[j as int].1 == methods@[j as int].value@);
                match method_schema_name(&methods[j].value) {
                    Some(name) => {
                        into.insert(name);
                    },
                    None => {},
                }
                proof {
                    assert forall|n: Seq<char>| #[trigger]
                        into.names().contains(n) <==> (old(into).names().contains(n) || exists|k: int|
                            0 <= k < j + 1 && #[trigger] webhook_ref(ms[k].1) is Some && last_segment(
                                webhook_ref(ms[k].1)->0,
                            ) == n) by {
                        if exists|k: int|
                            0 <= k < j + 1 && #[trigger] webhook_ref(ms[k].1) is Some && last_segment(
                                webhook_ref(ms[k].1)->0,
                            ) == n {
                            let k = choose|k: int|
                                0 <= k < j + 1 && #[trigger] webhook_ref(ms[k].1) is Some && last_segment(
                                    webhook_ref(ms[k].1)->0,
                                ) == n;
                            if k < j {
                                assert(before.contains(n));
                            }
                        }
                        if before.contains(n) && !old(into).names().contains(n) {
                            let k = choose|k: int|
                                0 <= k < j && #[trigger] webhook_ref(ms[k].1) is Some && last_segment(
                                    webhook_ref(ms[k].1)->0,
                                ) == n;
                            assert(0 <= k < j + 1);
                        }
                    }
                }
                j += 1;
            }
            assert(into.names() =~= old(into).names().union(webhook_names_of(webhook@)));
        },
    }
}

/// The schema names that the webhooks of a document refer to, given the
/// extensions of the document.
pub fn get_webhooks(extensions: &Vec<JsonMember>) -> (r: NameSet)
    ensures
        r.names() == webhook_names(members_view(extensions@)),
{
    let mut names = NameSet::new();
    let webhooks = match find_member(extensions, "x-webhooks") {
        Some(w) => w,
        None => {
            return names;
        },
    };
    match webhooks.as_object() {
        None => {
            assert(webhook_names(members_view(extensions@)) =~= Set::<Seq<char>>::empty());
        },
        Some(hooks) => {
            let ghost hs = members_view(hooks@);
            let mut i: usize = 0;
            while i < hooks.len()
                invariant
                    i <= hooks.len(),
                    hs == members_view(hooks@),
                    forall|n: Seq<char>| #[trigger]
                        names.names().contains(n) <==> exists|k: int|
                            0 <= k < i && #[trigger] webhook_names_of(hs[k].1).contains(n),
                decreases hooks.len() - i,
            {
                let ghost before = names.names();
                assert(hs[i as int].1 == hooks@[i as int].value@);
                add_webhook(&hooks[i].value, &mut names);
                proof {
                    assert forall|n: Seq<char>| #[trigger]
                        names.names().contains(n) <==> exists|k: int|
                            0 <= k < i + 1 && #[trigger] webhook_names_of(hs[k].1).contains(n) by {
                        if exists|k: int| 0 <= k < i + 1 && #[trigger] webhook_names_of(hs[k].1).contains(n) {
                            let k = choose|k: int|
                                0 <= k < i + 1 && #[trigger] webhook_names_of(hs[k].1).contains(n);
                            if k < i {
                                assert(before.contains(n));
                            }
                        }
                        if before.contains(n) {
                            let k = choose|k: int| 0 <= k < i && #[trigger] webhook_names_of(hs[k].1).contains(n);
                            assert(0 <= k < i + 1);
                        }
                    }
                }
                i += 1;
            }
            assert(names.names() =~= webhook_names(members_view(extensions@)));
        },
    }
    names
}

} // verus!
