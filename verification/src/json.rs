//! JSON documents as plain values, and their canonical text.

use crate::text;
use serde_json::Value;
use vstd::prelude::*;

verus! {

/// A JSON document. A number that is not a 64-bit integer is kept as the text
/// it is written with. An object is kept as its members; of members with the
/// same key the last one counts.
#[derive(Debug, PartialEq, Eq)]
pub enum Json {
    Null,
    Bool(bool),
    Int(i64),
    Number(String),
    Text(String),
    Array(Vec<Json>),
    Object(Vec<(String, Json)>),
}

/// What a JSON document says.
#[verifier::ext_equal]
pub enum JsonView {
    Null,
    Bool(bool),
    Int(int),
    Number(Seq<char>),
    Text(Seq<char>),
    Array(Seq<JsonView>),
    Object(Seq<(Seq<char>, JsonView)>),
}

/// The members of an object.
pub type Members = Seq<(Seq<char>, JsonView)>;

/// What a document says.
pub open spec fn json_view(v: Json) -> JsonView
    decreases v,
{
    match v {
        Json::Null => JsonView::Null,
        Json::Bool(b) => JsonView::Bool(b),
        Json::Int(n) => JsonView::Int(n as int),
        Json::Number(s) => JsonView::Number(s@),
        Json::Text(s) => JsonView::Text(s@),
        Json::Array(items) => JsonView::Array(
            Seq::new(
                items@.len(),
                |i: int|
                    if 0 <= i < items@.len() {
                        json_view(items@[i])
                    } else {
                        JsonView::Null
                    },
            ),
        ),
        Json::Object(members) => JsonView::Object(
            Seq::new(
                members@.len(),
                |i: int|
                    if 0 <= i < members@.len() {
                        (members@[i].0@, json_view(members@[i].1))
                    } else {
                        (Seq::empty(), JsonView::Null)
                    },
            ),
        ),
    }
}

impl View for Json {
    type V = JsonView;

    open spec fn view(&self) -> JsonView {
        json_view(*self)
    }
}

/// What a list of documents says.
pub open spec fn items_view(items: Seq<Json>) -> Seq<JsonView> {
    Seq::new(items.len(), |i: int| items[i]@)
}

/// What a list of members says.
pub open spec fn members_view(members: Seq<(String, Json)>) -> Members {
    Seq::new(members.len(), |i: int| (members[i].0@, members[i].1@))
}

impl Json {
    pub proof fn lemma_array(items: Vec<Json>)
        ensures
            Json::Array(items)@ == JsonView::Array(items_view(items@)),
    {
        assert(Json::Array(items)@->Array_0 =~= items_view(items@));
    }

    pub proof fn lemma_object(members: Vec<(String, Json)>)
        ensures
            Json::Object(members)@ == JsonView::Object(members_view(members@)),
    {
        assert(Json::Object(members)@->Object_0 =~= members_view(members@));
    }
}

/// Sets the member `key` of a list that is kept in ascending order of keys.
pub open spec fn put<V>(list: Seq<(Seq<char>, V)>, key: Seq<char>, value: V) -> Seq<
    (Seq<char>, V),
>
    decreases list.len(),
{
    if list.len() == 0 {
        seq![(key, value)]
    } else if list.last().0 == key {
        list.drop_last().push((key, value))
    } else if text::text_lt(list.last().0, key) {
        list.push((key, value))
    } else {
        put(list.drop_last(), key, value).push(list.last())
    }
}

/// The members in ascending order of keys, the last one of each key.
pub open spec fn sorted_members<V>(members: Seq<(Seq<char>, V)>) -> Seq<(Seq<char>, V)>
    decreases members.len(),
{
    if members.len() == 0 {
        Seq::empty()
    } else {
        put(sorted_members(members.drop_last()), members.last().0, members.last().1)
    }
}

/// Keys strictly ascend.
pub open spec fn keys_ascend<V>(members: Seq<(Seq<char>, V)>) -> bool {
    forall|i: int, j: int|
        0 <= i < j < members.len() ==> text::text_lt(
            (#[trigger] members[i]).0,
            (#[trigger] members[j]).0,
        )
}

/// The canonical form of a document: objects sorted by key at every depth.
pub open spec fn canon(v: JsonView) -> JsonView
    decreases v,
{
    match v {
        JsonView::Array(items) => JsonView::Array(canon_items(items)),
        JsonView::Object(members) => JsonView::Object(sorted_members(canon_members(members))),
        other => other,
    }
}

/// The canonical forms of some documents.
pub open spec fn canon_items(items: Seq<JsonView>) -> Seq<JsonView>
    decreases items,
{
    if items.len() == 0 {
        Seq::empty()
    } else {
        canon_items(items.subrange(0, items.len() - 1)).push(canon(items[items.len() - 1]))
    }
}

/// The members with their values in canonical form.
pub open spec fn canon_members(members: Members) -> Members
    decreases members,
{
    if members.len() == 0 {
        Seq::empty()
    } else {
        canon_members(members.subrange(0, members.len() - 1)).push(
            (members[members.len() - 1].0, canon(members[members.len() - 1].1)),
        )
    }
}

proof fn lemma_canon_items(items: Seq<JsonView>)
    ensures
        canon_items(items) == Seq::new(items.len(), |i: int| canon(items[i])),
    decreases items.len(),
{
    if items.len() > 0 {
        let head = items.subrange(0, items.len() - 1);
        lemma_canon_items(head);
    }
    assert(canon_items(items) =~= Seq::new(items.len(), |i: int| canon(items[i])));
}

proof fn lemma_canon_members(members: Members)
    ensures
        canon_members(members) == Seq::new(
            members.len(),
            |i: int| (members[i].0, canon(members[i].1)),
        ),
    decreases members.len(),
{
    if members.len() > 0 {
        let head = members.subrange(0, members.len() - 1);
        lemma_canon_members(head);
    }
    assert(canon_members(members) =~= Seq::new(
        members.len(),
        |i: int| (members[i].0, canon(members[i].1)),
    ));
}

/// An element of an array is smaller than the array.
proof fn lemma_item_is_smaller(v: Json, items: Vec<Json>, i: int)
    requires
        v == Json::Array(items),
        0 <= i < items@.len(),
    ensures
        decreases_to!(v => items@[i]),
{
    assert(decreases_to!(v => v->Array_0));
    assert(decreases_to!(items => items@));
    assert(decreases_to!(items@ => items@[i]));
}

/// A member of an object is smaller than the object.
proof fn lemma_member_is_smaller(v: Json, members: Vec<(String, Json)>, i: int)
    requires
        v == Json::Object(members),
        0 <= i < members@.len(),
    ensures
        decreases_to!(v => members@[i].1),
{
    assert(decreases_to!(v => v->Object_0));
    assert(decreases_to!(members => members@));
    assert(decreases_to!(members@ => members@[i]));
    assert(decreases_to!(members@[i] => members@[i].1));
}

pub proof fn lemma_put_last<V>(list: Seq<(Seq<char>, V)>, key: Seq<char>, value: V)
    requires
        keys_ascend(list),
    ensures
        keys_ascend(put(list, key, value)),
        put(list, key, value).len() >= 1,
        forall|i: int|
            0 <= i < put(list, key, value).len() ==> (#[trigger] put(list, key, value)[i]).0 == key
                || (exists|j: int|
                0 <= j < list.len() && #[trigger] list[j] == put(list, key, value)[i]),
    decreases list.len(),
{
    let out = put(list, key, value);
    if list.len() > 0 {
        let head = list.drop_last();
        let last = list.last();
        assert(list[list.len() - 1] == last);
        text::lemma_text_order_total(last.0, key);
        assert forall|i: int, j: int| 0 <= i < j < head.len() implies text::text_lt(
            (#[trigger] head[i]).0,
            (#[trigger] head[j]).0,
        ) by {
            assert(text::text_lt(list[i].0, list[j].0));
        }
        assert forall|i: int| 0 <= i < head.len() implies text::text_lt(
            (#[trigger] head[i]).0,
            last.0,
        ) by {
            assert(text::text_lt(list[i].0, list[list.len() - 1].0));
        }
        if last.0 == key {
            assert forall|i: int| 0 <= i < out.len() implies (#[trigger] out[i]).0 == key || (
            exists|j: int| 0 <= j < list.len() && #[trigger] list[j] == out[i]) by {
                if i < head.len() {
                    assert(list[i] == out[i]);
                }
            }
            assert forall|i: int, j: int| 0 <= i < j < out.len() implies text::text_lt(
                (#[trigger] out[i]).0,
                (#[trigger] out[j]).0,
            ) by {
                assert(out[i] == head[i]);
                if j < head.len() {
                    assert(out[j] == head[j]);
                }
            }
        } else if text::text_lt(last.0, key) {
            assert forall|i: int, j: int| 0 <= i < j < out.len() implies text::text_lt(
                (#[trigger] out[i]).0,
                (#[trigger] out[j]).0,
            ) by {
                if j < list.len() {
                    assert(text::text_lt(list[i].0, list[j].0));
                } else {
                    if i < list.len() - 1 {
                        assert(text::text_lt(list[i].0, last.0));
                        text::lemma_text_order_transitive(list[i].0, last.0, key);
                    }
                }
            }
            assert forall|i: int| 0 <= i < out.len() implies (#[trigger] out[i]).0 == key || (
            exists|j: int| 0 <= j < list.len() && #[trigger] list[j] == out[i]) by {
                if i < list.len() {
                    assert(list[i] == out[i]);
                }
            }
        } else {
            lemma_put_last(head, key, value);
            let inner = put(head, key, value);
            assert forall|i: int| 0 <= i < inner.len() implies text::text_lt(
                (#[trigger] inner[i]).0,
                last.0,
            ) by {
                if inner[i].0 != key {
                    let j = choose|j: int| 0 <= j < head.len() && #[trigger] head[j] == inner[i];
                    assert(text::text_lt(head[j].0, last.0));
                }
            }
            assert forall|i: int, j: int| 0 <= i < j < out.len() implies text::text_lt(
                (#[trigger] out[i]).0,
                (#[trigger] out[j]).0,
            ) by {
                assert(out[i] == inner[i]);
                if j < inner.len() {
                    assert(out[j] == inner[j]);
                }
            }
            assert forall|i: int| 0 <= i < out.len() implies (#[trigger] out[i]).0 == key || (
            exists|j: int| 0 <= j < list.len() && #[trigger] list[j] == out[i]) by {
                if i < inner.len() {
                    assert(out[i] == inner[i]);
                    if inner[i].0 != key {
                        let j = choose|j: int|
                            0 <= j < head.len() && #[trigger] head[j] == inner[i];
                        assert(list[j] == out[i]);
                    }
                } else {
                    assert(list[list.len() - 1] == out[i]);
                }
            }
        }
    }
}

/// Sorted members ascend.
pub proof fn lemma_sorted_members_ascend<V>(members: Seq<(Seq<char>, V)>)
    ensures
        keys_ascend(sorted_members(members)),
    decreases members.len(),
{
    if members.len() > 0 {
        lemma_sorted_members_ascend(members.drop_last());
        lemma_put_last(
            sorted_members(members.drop_last()),
            members.last().0,
            members.last().1,
        );
    }
}

proof fn lemma_put_commutes<V>(
    list: Seq<(Seq<char>, V)>,
    k: Seq<char>,
    v: V,
    l: Seq<char>,
    w: V,
)
    requires
        text::text_lt(k, l),
    ensures
        put(put(list, k, v), l, w) == put(put(list, l, w), k, v),
    decreases list.len(),
{
    text::lemma_text_order_total(k, l);
    if list.len() == 0 {
        assert(put(list, k, v).drop_last() =~= list);
        assert(put(list, l, w).drop_last() =~= list);
        assert(put(list, k, v).push((l, w)) =~= put(list, k, v).push((l, w)));
    } else {
        let head = list.drop_last();
        let last = list.last();
        text::lemma_text_order_total(last.0, k);
        text::lemma_text_order_total(last.0, l);
        if text::text_lt(last.0, k) {
            text::lemma_text_order_transitive(last.0, k, l);
            assert(list.push((l, w)).drop_last() =~= list);
        } else if last.0 == k {
            assert(list.push((l, w)).drop_last() =~= list);
        } else if text::text_lt(last.0, l) {
            assert(list.push((l, w)).drop_last() =~= list);
        } else if last.0 == l {
            assert(head.push((l, w)).drop_last() =~= head);
            assert(put(head, k, v).push(last).drop_last() =~= put(head, k, v));
        } else {
            lemma_put_commutes(head, k, v, l, w);
            assert(put(head, k, v).push(last).drop_last() =~= put(head, k, v));
            assert(put(head, l, w).push(last).drop_last() =~= put(head, l, w));
        }
    }
}

proof fn lemma_sorted_members_same_tail<V>(
    a: Seq<(Seq<char>, V)>,
    b: Seq<(Seq<char>, V)>,
    tail: Seq<(Seq<char>, V)>,
)
    requires
        sorted_members(a) == sorted_members(b),
    ensures
        sorted_members(a + tail) == sorted_members(b + tail),
    decreases tail.len(),
{
    if tail.len() == 0 {
        assert(a + tail =~= a && b + tail =~= b);
    } else {
        lemma_sorted_members_same_tail(a, b, tail.drop_last());
        assert((a + tail).drop_last() =~= a + tail.drop_last());
        assert((b + tail).drop_last() =~= b + tail.drop_last());
    }
}

/// The order in which an object's members are written does not matter: two
/// neighbors with different keys can change places without changing the
/// canonical form.
pub proof fn law_member_order_is_irrelevant(members: Members, i: int)
    requires
        0 <= i < members.len() - 1,
        members[i].0 != members[i + 1].0,
    ensures
        canon(JsonView::Object(members)) == canon(
            JsonView::Object(members.update(i, members[i + 1]).update(i + 1, members[i])),
        ),
{
    let swapped = members.update(i, members[i + 1]).update(i + 1, members[i]);
    lemma_canon_members(members);
    lemma_canon_members(swapped);
    let a = canon_members(members);
    let b = canon_members(swapped);
    let front = a.take(i);
    let tail = a.skip(i + 2);
    let x = a[i];
    let y = a[i + 1];
    let first = front.push(x).push(y);
    let second = front.push(y).push(x);
    assert(a =~= first + tail);
    assert(b =~= second + tail);
    assert(first.drop_last() =~= front.push(x));
    assert(second.drop_last() =~= front.push(y));
    assert(front.push(x).drop_last() =~= front);
    assert(front.push(y).drop_last() =~= front);
    text::lemma_text_order_total(x.0, y.0);
    let base = sorted_members(front);
    assert(sorted_members(front.push(x)) == put(base, x.0, x.1));
    assert(sorted_members(front.push(y)) == put(base, y.0, y.1));
    if text::text_lt(x.0, y.0) {
        lemma_put_commutes(base, x.0, x.1, y.0, y.1);
    } else {
        lemma_put_commutes(base, y.0, y.1, x.0, x.1);
    }
    lemma_sorted_members_same_tail(first, second, tail);
}

/// Two documents say the same: their canonical forms are equal.
pub open spec fn same_content(a: JsonView, b: JsonView) -> bool {
    canon(a) == canon(b)
}

/// A list of keyed values, keys as characters.
pub open spec fn keyed<V>(list: Seq<(String, V)>) -> Seq<(Seq<char>, V)> {
    Seq::new(list.len(), |i: int| (list[i].0@, list[i].1))
}

/// Keyed values with each value replaced by its image.
pub open spec fn map_values<V, W>(list: Seq<(Seq<char>, V)>, f: spec_fn(V) -> W) -> Seq<
    (Seq<char>, W),
> {
    Seq::new(list.len(), |i: int| (list[i].0, f(list[i].1)))
}

pub proof fn lemma_put_maps<V, W>(
    list: Seq<(Seq<char>, V)>,
    key: Seq<char>,
    value: V,
    f: spec_fn(V) -> W,
)
    ensures
        map_values(put(list, key, value), f) == put(map_values(list, f), key, f(value)),
    decreases list.len(),
{
    let mapped = map_values(list, f);
    if list.len() == 0 {
        assert(map_values(put(list, key, value), f) =~= seq![(key, f(value))]);
        assert(mapped.len() == 0);
    } else {
        let head = list.drop_last();
        assert(mapped.drop_last() =~= map_values(head, f));
        assert(mapped.last() == (list.last().0, f(list.last().1)));
        if list.last().0 == key {
            assert(map_values(head.push((key, value)), f) =~= map_values(head, f).push(
                (key, f(value)),
            ));
        } else if text::text_lt(list.last().0, key) {
            assert(map_values(list.push((key, value)), f) =~= mapped.push((key, f(value))));
        } else {
            lemma_put_maps(head, key, value, f);
            assert(map_values(put(head, key, value).push(list.last()), f) =~= map_values(
                put(head, key, value),
                f,
            ).push((list.last().0, f(list.last().1))));
        }
    }
}

/// Sets the member `key` of a list that is kept in ascending order of keys.
pub(crate) fn put_member<V>(list: &mut Vec<(String, V)>, key: String, value: V)
    ensures
        keyed(final(list)@) == put(keyed(old(list)@), key@, value),
    decreases old(list)@.len(),
{
    let ghost before = keyed(list@);
    if list.len() == 0 {
        list.push((key, value));
        assert(keyed(list@) =~= put(before, key@, value));
        return;
    }
    let at: usize = list.len() - 1;
    assert(before.last() == (list@[at as int].0@, list@[at as int].1));
    if text::same_text(list[at].0.as_str(), key.as_str()) {
        let _ = list.pop();
        list.push((key, value));
        assert(keyed(list@) =~= before.drop_last().push((key@, value)));
        return;
    }
    if text::text_before(list[at].0.as_str(), key.as_str()) {
        list.push((key, value));
        assert(keyed(list@) =~= before.push((key@, value)));
        return;
    }
    let popped = list.pop();
    if let Some(last) = popped {
        assert(keyed(list@) =~= before.drop_last());
        put_member(list, key, value);
        let ghost inner = keyed(list@);
        list.push(last);
        assert(keyed(list@) =~= inner.push(before.last()));
    }
}

impl Clone for Json {
    fn clone(&self) -> (r: Self)
        ensures
            r@ == self@,
        decreases self,
    {
        match self {
            Json::Null => Json::Null,
            Json::Bool(b) => Json::Bool(*b),
            Json::Int(n) => Json::Int(*n),
            Json::Number(s) => Json::Number(s.clone()),
            Json::Text(s) => Json::Text(s.clone()),
            Json::Array(items) => {
                let mut out: Vec<Json> = Vec::new();
                let mut i: usize = 0;
                while i < items.len()
                    invariant
                        i <= items@.len(),
                        *self == Json::Array(*items),
                        items_view(out@) == items_view(items@).take(i as int),
                    decreases items.len() - i,
                {
                    proof {
                        lemma_item_is_smaller(*self, *items, i as int);
                    }
                    let ghost kept = items_view(out@);
                    out.push(items[i].clone());
                    assert(items_view(out@) =~= kept.push(items@[i as int]@));
                    assert(items_view(out@) =~= items_view(items@).take(i + 1));
                    i += 1;
                }
                proof {
                    Json::lemma_array(out);
                    Json::lemma_array(*items);
                    assert(items_view(out@) =~= items_view(items@));
                }
                Json::Array(out)
            },
            Json::Object(members) => {
                let mut out: Vec<(String, Json)> = Vec::new();
                let mut i: usize = 0;
                while i < members.len()
                    invariant
                        i <= members@.len(),
                        *self == Json::Object(*members),
                        members_view(out@) == members_view(members@).take(i as int),
                    decreases members.len() - i,
                {
                    proof {
                        lemma_member_is_smaller(*self, *members, i as int);
                    }
                    let ghost kept = members_view(out@);
                    out.push((members[i].0.clone(), members[i].1.clone()));
                    assert(members_view(out@) =~= kept.push(members_view(members@)[i as int]));
                    assert(members_view(out@) =~= members_view(members@).take(i + 1));
                    i += 1;
                }
                proof {
                    Json::lemma_object(out);
                    Json::lemma_object(*members);
                    assert(members_view(out@) =~= members_view(members@));
                }
                Json::Object(out)
            },
        }
    }
}

/// The canonical form of a document.
pub fn canonical(v: &Json) -> (r: Json)
    ensures
        r@ == canon(v@),
    decreases v,
{
    match v {
        Json::Array(items) => {
            let mut out: Vec<Json> = Vec::new();
            let mut i: usize = 0;
            while i < items.len()
                invariant
                    i <= items@.len(),
                    *v == Json::Array(*items),
                    items_view(out@) == canon_items(items_view(items@)).take(i as int),
                decreases items.len() - i,
            {
                proof {
                    lemma_item_is_smaller(*v, *items, i as int);
                    lemma_canon_items(items_view(items@));
                }
                let ghost kept = items_view(out@);
                out.push(canonical(&items[i]));
                assert(items_view(out@) =~= kept.push(canon(items@[i as int]@)));
                assert(items_view(out@) =~= canon_items(items_view(items@)).take(i + 1));
                i += 1;
            }
            proof {
                Json::lemma_array(out);
                Json::lemma_array(*items);
                lemma_canon_items(items_view(items@));
                assert(items_view(out@) =~= canon_items(items_view(items@)));
            }
            Json::Array(out)
        },
        Json::Object(members) => {
            let mut out: Vec<(String, Json)> = Vec::new();
            let ghost whole = canon_members(members_view(members@));
            let ghost f = |j: Json| j@;
            assert(map_values(keyed(out@), f) =~= sorted_members(whole.take(0)));
            let mut i: usize = 0;
            while i < members.len()
                invariant
                    i <= members@.len(),
                    *v == Json::Object(*members),
                    whole == canon_members(members_view(members@)),
                    f == (|j: Json| j@),
                    map_values(keyed(out@), f) == sorted_members(whole.take(i as int)),
                decreases members.len() - i,
            {
                proof {
                    lemma_member_is_smaller(*v, *members, i as int);
                    lemma_canon_members(members_view(members@));
                }
                let value = canonical(&members[i].1);
                let ghost kept = keyed(out@);
                let ghost said = value;
                put_member(&mut out, members[i].0.clone(), value);
                proof {
                    assert(whole.take(i + 1).drop_last() =~= whole.take(i as int));
                    lemma_put_maps(kept, members@[i as int].0@, said, f);
                }
                i += 1;
            }
            proof {
                lemma_canon_members(members_view(members@));
                assert(whole.take(i as int) =~= whole);
                Json::lemma_object(out);
                Json::lemma_object(*members);
                assert(members_view(out@) =~= map_values(keyed(out@), f));
            }
            Json::Object(out)
        },
        other => {
            other.clone()
        },
    }
}

/// Whether two documents are written the same.
fn identical(a: &Json, b: &Json) -> (r: bool)
    ensures
        r == (a@ == b@),
    decreases a,
{
    match (a, b) {
        (Json::Null, Json::Null) => true,
        (Json::Bool(x), Json::Bool(y)) => *x == *y,
        (Json::Int(x), Json::Int(y)) => *x == *y,
        (Json::Number(x), Json::Number(y)) => text::same_text(x.as_str(), y.as_str()),
        (Json::Text(x), Json::Text(y)) => text::same_text(x.as_str(), y.as_str()),
        (Json::Array(x), Json::Array(y)) => {
            proof {
                Json::lemma_array(*x);
                Json::lemma_array(*y);
            }
            if x.len() != y.len() {
                assert(items_view(x@).len() != items_view(y@).len());
                return false;
            }
            let mut i: usize = 0;
            while i < x.len()
                invariant
                    i <= x@.len(),
                    x@.len() == y@.len(),
                    *a == Json::Array(*x),
                    *b == Json::Array(*y),
                    a@ == JsonView::Array(items_view(x@)),
                    b@ == JsonView::Array(items_view(y@)),
                    forall|j: int| 0 <= j < i ==> #[trigger] x@[j]@ == y@[j]@,
                decreases x.len() - i,
            {
                proof {
                    lemma_item_is_smaller(*a, *x, i as int);
                }
                if !identical(&x[i], &y[i]) {
                    assert(items_view(x@)[i as int] != items_view(y@)[i as int]);
                    return false;
                }
                i += 1;
            }
            assert(items_view(x@) =~= items_view(y@));
            true
        },
        (Json::Object(x), Json::Object(y)) => {
            proof {
                Json::lemma_object(*x);
                Json::lemma_object(*y);
            }
            if x.len() != y.len() {
                assert(members_view(x@).len() != members_view(y@).len());
                return false;
            }
            let mut i: usize = 0;
            while i < x.len()
                invariant
                    i <= x@.len(),
                    x@.len() == y@.len(),
                    *a == Json::Object(*x),
                    *b == Json::Object(*y),
                    a@ == JsonView::Object(members_view(x@)),
                    b@ == JsonView::Object(members_view(y@)),
                    forall|j: int|
                        0 <= j < i ==> #[trigger] members_view(x@)[j] == members_view(y@)[j],
                decreases x.len() - i,
            {
                proof {
                    lemma_member_is_smaller(*a, *x, i as int);
                }
                if !text::same_text(x[i].0.as_str(), y[i].0.as_str()) || !identical(
                    &x[i].1,
                    &y[i].1,
                ) {
                    assert(members_view(x@)[i as int] != members_view(y@)[i as int]);
                    return false;
                }
                i += 1;
            }
            assert(members_view(x@) =~= members_view(y@));
            true
        },
        _ => false,
    }
}

/// Whether two documents say the same.
pub fn same_json(a: &Json, b: &Json) -> (r: bool)
    ensures
        r == same_content(a@, b@),
{
    identical(&canonical(a), &canonical(b))
}

/// The integer that a document is.
pub open spec fn int_of(v: JsonView) -> Option<int> {
    match v {
        JsonView::Int(n) => Some(n),
        _ => None,
    }
}

/// The truth value that a document is.
pub open spec fn bool_of(v: JsonView) -> Option<bool> {
    match v {
        JsonView::Bool(b) => Some(b),
        _ => None,
    }
}

/// The text that a document is.
pub open spec fn text_of(v: JsonView) -> Option<Seq<char>> {
    match v {
        JsonView::Text(s) => Some(s),
        _ => None,
    }
}

/// The last member with this key.
pub open spec fn member_of(members: Members, key: Seq<char>) -> Option<JsonView>
    decreases members.len(),
{
    if members.len() == 0 {
        None
    } else if members.last().0 == key {
        Some(members.last().1)
    } else {
        member_of(members.drop_last(), key)
    }
}

/// What an optional document says.
pub open spec fn option_view(v: Option<Json>) -> Option<JsonView> {
    match v {
        Some(doc) => Some(doc@),
        None => None,
    }
}

/// What some members hold by key: of members with the same key the last one
/// counts.
pub open spec fn to_map(members: Members) -> Map<Seq<char>, JsonView>
    decreases members.len(),
{
    if members.len() == 0 {
        Map::empty()
    } else {
        to_map(members.drop_last()).insert(members.last().0, members.last().1)
    }
}

/// Looking a member up is looking it up in the map.
pub proof fn lemma_member_is_in_map(members: Members, key: Seq<char>)
    ensures
        member_of(members, key) == (if to_map(members).dom().contains(key) {
            Some(to_map(members)[key])
        } else {
            None
        }),
    decreases members.len(),
{
    if members.len() > 0 {
        lemma_member_is_in_map(members.drop_last(), key);
    }
}

impl Json {
    pub fn as_i64(&self) -> (r: Option<i64>)
        ensures
            match r {
                Some(n) => int_of(self@) == Some(n as int),
                None => int_of(self@) is None,
            },
    {
        match self {
            Json::Int(n) => Some(*n),
            _ => None,
        }
    }

    pub fn as_bool(&self) -> (r: Option<bool>)
        ensures
            r == bool_of(self@),
    {
        match self {
            Json::Bool(b) => Some(*b),
            _ => None,
        }
    }

    pub fn as_str(&self) -> (r: Option<&str>)
        ensures
            match r {
                Some(s) => text_of(self@) == Some(s@),
                None => text_of(self@) is None,
            },
    {
        match self {
            Json::Text(s) => Some(s.as_str()),
            _ => None,
        }
    }

    pub fn as_array(&self) -> (r: Option<&Vec<Json>>)
        ensures
            match r {
                Some(items) => self@ == JsonView::Array(items_view(items@)),
                None => self@ !is Array,
            },
    {
        match self {
            Json::Array(items) => {
                proof {
                    Json::lemma_array(*items);
                }
                Some(items)
            },
            _ => None,
        }
    }

    pub fn as_object(&self) -> (r: Option<&Vec<(String, Json)>>)
        ensures
            match r {
                Some(members) => self@ == JsonView::Object(members_view(members@)),
                None => self@ !is Object,
            },
    {
        match self {
            Json::Object(members) => {
                proof {
                    Json::lemma_object(*members);
                }
                Some(members)
            },
            _ => None,
        }
    }

    /// The text of a literal.
    pub fn text(s: &str) -> (r: Json)
        ensures
            r@ == JsonView::Text(s@),
    {
        Json::Text(s.to_owned())
    }

    /// An object of the given members.
    pub fn object(members: Vec<(String, Json)>) -> (r: Json)
        ensures
            r@ == JsonView::Object(members_view(members@)),
    {
        proof {
            Json::lemma_object(members);
        }
        Json::Object(members)
    }

    /// An array of the given documents.
    pub fn array(items: Vec<Json>) -> (r: Json)
        ensures
            r@ == JsonView::Array(items_view(items@)),
    {
        proof {
            Json::lemma_array(items);
        }
        Json::Array(items)
    }
}

/// One member of an object.
pub fn member(key: &str, value: Json) -> (r: (String, Json))
    ensures
        r.0@ == key@,
        r.1@ == value@,
{
    (key.to_owned(), value)
}

/// The last member with this key.
pub fn find_member<'a>(members: &'a [(String, Json)], key: &str) -> (r: Option<&'a Json>)
    ensures
        match r {
            Some(v) => member_of(members_view(members@), key@) == Some(v@),
            None => member_of(members_view(members@), key@) is None,
        },
{
    let mut n: usize = members.len();
    let ghost all = members_view(members@);
    assert(all.take(n as int) =~= all);
    while n > 0
        invariant
            n <= members@.len(),
            all == members_view(members@),
            member_of(all, key@) == member_of(all.take(n as int), key@),
        decreases n,
    {
        assert(all.take(n as int).drop_last() =~= all.take(n - 1));
        assert(all.take(n as int).last() == all[n - 1]);
        if text::same_text(members[n - 1].0.as_str(), key) {
            return Some(&members[n - 1].1);
        }
        n -= 1;
    }
    None
}

/// `serde_json::Value`, whose inside the proofs do not see.
#[verifier::external_type_specification]
#[verifier::external_body]
pub struct ExValue(serde_json::Value);

/// What a serde value says.
pub uninterp spec fn value_content(v: serde_json::Value) -> JsonView;

/// What serde reads from the text of a number.
pub uninterp spec fn read_number(text: Seq<char>) -> JsonView;

/// The compact text of a serde value that says this.
pub uninterp spec fn compact_text(content: JsonView) -> Seq<char>;

/// What some serde values say.
pub open spec fn values_content(items: Seq<serde_json::Value>) -> Seq<JsonView> {
    Seq::new(items.len(), |i: int| value_content(items[i]))
}

/// `serde_json::Value::Null`.
#[verifier::external_body]
fn value_null() -> (r: Value)
    ensures
        value_content(r) == JsonView::Null,
{
    Value::Null
}

/// `serde_json::Value::Bool`.
#[verifier::external_body]
fn value_bool(b: bool) -> (r: Value)
    ensures
        value_content(r) == JsonView::Bool(b),
{
    Value::Bool(b)
}

/// `serde_json::Value::from` on an integer.
#[verifier::external_body]
fn value_int(n: i64) -> (r: Value)
    ensures
        value_content(r) == JsonView::Int(n as int),
{
    Value::from(n)
}

/// `serde_json::from_str`, a text that it refuses giving `null`: what the value
/// says depends on the text alone.
#[verifier::external_body]
fn value_number(text: &str) -> (r: Value)
    ensures
        value_content(r) == read_number(text@),
{
    serde_json::from_str(text).unwrap_or(Value::Null)
}

/// `serde_json::Value::String`.
#[verifier::external_body]
fn value_string(text: String) -> (r: Value)
    ensures
        value_content(r) == JsonView::Text(text@),
{
    Value::String(text)
}

/// `serde_json::Value::Array`.
#[verifier::external_body]
fn value_array(items: Vec<Value>) -> (r: Value)
    ensures
        value_content(r) == JsonView::Array(values_content(items@)),
{
    Value::Array(items)
}

/// `serde_json::Value::Object` over a `serde_json::Map` that is collected from
/// members: with keys in ascending order the map holds the members as given.
#[verifier::external_body]
fn value_object(members: Vec<(String, Value)>) -> (r: Value)
    requires
        keys_ascend(keyed(members@)),
    ensures
        value_content(r) == JsonView::Object(
            map_values(keyed(members@), |v: serde_json::Value| value_content(v)),
        ),
{
    Value::Object(members.into_iter().collect())
}

/// The `Display` of a `serde_json::Value`: compact text that depends on what
/// the value says alone.
#[verifier::external_body]
fn value_text(v: &Value) -> (r: String)
    ensures
        r@ == compact_text(value_content(*v)),
{
    v.to_string()
}

/// A document with its numbers as serde reads them.
pub open spec fn as_read(v: JsonView) -> JsonView
    decreases v,
{
    match v {
        JsonView::Number(s) => read_number(s),
        JsonView::Array(items) => JsonView::Array(read_items(items)),
        JsonView::Object(members) => JsonView::Object(read_members(members)),
        other => other,
    }
}

/// Some documents with their numbers as serde reads them.
pub open spec fn read_items(items: Seq<JsonView>) -> Seq<JsonView>
    decreases items,
{
    if items.len() == 0 {
        Seq::empty()
    } else {
        read_items(items.subrange(0, items.len() - 1)).push(as_read(items[items.len() - 1]))
    }
}

/// Some members with the numbers in their values as serde reads them.
pub open spec fn read_members(members: Members) -> Members
    decreases members,
{
    if members.len() == 0 {
        Seq::empty()
    } else {
        read_members(members.subrange(0, members.len() - 1)).push(
            (members[members.len() - 1].0, as_read(members[members.len() - 1].1)),
        )
    }
}

proof fn lemma_read_items(items: Seq<JsonView>)
    ensures
        read_items(items) == Seq::new(items.len(), |i: int| as_read(items[i])),
    decreases items.len(),
{
    if items.len() > 0 {
        lemma_read_items(items.subrange(0, items.len() - 1));
    }
    assert(read_items(items) =~= Seq::new(items.len(), |i: int| as_read(items[i])));
}

proof fn lemma_read_members(members: Members)
    ensures
        read_members(members) == map_values(members, |v: JsonView| as_read(v)),
    decreases members.len(),
{
    if members.len() > 0 {
        lemma_read_members(members.subrange(0, members.len() - 1));
    }
    assert(read_members(members) =~= map_values(members, |v: JsonView| as_read(v)));
}

/// The serde value of the canonical form of `v`.
fn canonical_value(v: &Json) -> (r: Value)
    ensures
        value_content(r) == as_read(canon(v@)),
    decreases v,
{
    match v {
        Json::Null => value_null(),
        Json::Bool(b) => value_bool(*b),
        Json::Int(n) => value_int(*n),
        Json::Number(s) => value_number(s.as_str()),
        Json::Text(s) => value_string(s.clone()),
        Json::Array(items) => {
            let mut out: Vec<Value> = Vec::new();
            let ghost whole = read_items(canon_items(items_view(items@)));
            let mut i: usize = 0;
            while i < items.len()
                invariant
                    i <= items@.len(),
                    *v == Json::Array(*items),
                    whole == read_items(canon_items(items_view(items@))),
                    values_content(out@) == whole.take(i as int),
                decreases items.len() - i,
            {
                proof {
                    lemma_item_is_smaller(*v, *items, i as int);
                    lemma_canon_items(items_view(items@));
                    lemma_read_items(canon_items(items_view(items@)));
                }
                let ghost kept = values_content(out@);
                out.push(canonical_value(&items[i]));
                assert(values_content(out@) =~= kept.push(as_read(canon(items@[i as int]@))));
                assert(values_content(out@) =~= whole.take(i + 1));
                i += 1;
            }
            proof {
                Json::lemma_array(*items);
                lemma_canon_items(items_view(items@));
                lemma_read_items(canon_items(items_view(items@)));
                assert(values_content(out@) =~= whole);
            }
            value_array(out)
        },
        Json::Object(members) => {
            let mut out: Vec<(String, Value)> = Vec::new();
            let ghost whole = canon_members(members_view(members@));
            let ghost f = |x: serde_json::Value| value_content(x);
            let ghost g = |x: JsonView| as_read(x);
            assert(map_values(keyed(out@), f) =~= map_values(sorted_members(whole.take(0)), g));
            assert(keys_ascend(keyed(out@)));
            let mut i: usize = 0;
            while i < members.len()
                invariant
                    i <= members@.len(),
                    *v == Json::Object(*members),
                    whole == canon_members(members_view(members@)),
                    f == (|x: serde_json::Value| value_content(x)),
                    g == (|x: JsonView| as_read(x)),
                    keys_ascend(keyed(out@)),
                    map_values(keyed(out@), f) == map_values(
                        sorted_members(whole.take(i as int)),
                        g,
                    ),
                decreases members.len() - i,
            {
                proof {
                    lemma_member_is_smaller(*v, *members, i as int);
                    lemma_canon_members(members_view(members@));
                }
                let value = canonical_value(&members[i].1);
                let ghost kept = keyed(out@);
                let ghost said = value;
                put_member(&mut out, members[i].0.clone(), value);
                proof {
                    assert(whole.take(i + 1).drop_last() =~= whole.take(i as int));
                    lemma_put_maps(kept, members@[i as int].0@, said, f);
                    lemma_put_maps(
                        sorted_members(whole.take(i as int)),
                        members@[i as int].0@,
                        canon(members@[i as int].1@),
                        g,
                    );
                    lemma_put_last(kept, members@[i as int].0@, said);
                }
                i += 1;
            }
            proof {
                lemma_canon_members(members_view(members@));
                assert(whole.take(i as int) =~= whole);
                lemma_read_members(sorted_members(whole));
                Json::lemma_object(*members);
            }
            value_object(out)
        },
    }
}

/// The canonical text of a document.
pub open spec fn canonical_text(v: JsonView) -> Seq<char> {
    compact_text(as_read(canon(v)))
}

/// Canonical JSON: objects sorted by key at every depth, no whitespace.
#[must_use]
pub fn canonical_json(value: &Json) -> (r: String)
    ensures
        r@ == canonical_text(value@),
{
    value_text(&canonical_value(value))
}

/// Documents that say the same have the same canonical text.
pub proof fn law_same_content_same_text(a: JsonView, b: JsonView)
    requires
        same_content(a, b),
    ensures
        canonical_text(a) == canonical_text(b),
{
}

proof fn lemma_put_is_found(list: Members, key: Seq<char>, value: JsonView, other: Seq<char>)
    ensures
        member_of(put(list, key, value), other) == if other == key {
            Some(value)
        } else {
            member_of(list, other)
        },
    decreases list.len(),
{
    let out = put(list, key, value);
    if list.len() == 0 {
        assert(out.drop_last() =~= Seq::empty());
        assert(member_of(out.drop_last(), other) is None);
    } else if list.last().0 == key {
        assert(out.drop_last() =~= list.drop_last());
    } else if text::text_lt(list.last().0, key) {
        assert(out.drop_last() =~= list);
    } else {
        lemma_put_is_found(list.drop_last(), key, value, other);
        assert(out.drop_last() =~= put(list.drop_last(), key, value));
    }
}

/// Sorting members keeps what each key stands for: the last value given to it.
pub proof fn law_sorted_members_keep_their_values(members: Members, key: Seq<char>)
    ensures
        member_of(sorted_members(members), key) == member_of(members, key),
    decreases members.len(),
{
    if members.len() > 0 {
        let head = members.drop_last();
        law_sorted_members_keep_their_values(head, key);
        lemma_put_is_found(
            sorted_members(head),
            members.last().0,
            members.last().1,
            key,
        );
    }
}

/// A key stands for the last value given to it, and for nothing where none was.
pub proof fn law_the_last_member_counts(
    members: Members,
    key: Seq<char>,
    value: JsonView,
    other: Seq<char>,
)
    ensures
        member_of(members.push((key, value)), key) == Some(value),
        other != key ==> member_of(members.push((key, value)), other) == member_of(members, other),
        member_of(Seq::empty(), other) is None,
        to_map(members.push((key, value))) == to_map(members).insert(key, value),
{
    assert(members.push((key, value)).drop_last() =~= members);
}

/// A scalar is its own canonical form.
pub proof fn law_scalars_are_canonical(v: JsonView)
    ensures
        v !is Array && v !is Object ==> canon(v) == v,
        int_of(v) matches Some(n) ==> v == JsonView::Int(n),
        bool_of(v) matches Some(b) ==> v == JsonView::Bool(b),
        text_of(v) matches Some(s) ==> v == JsonView::Text(s),
        v is Int ==> int_of(v) is Some,
        v is Bool ==> bool_of(v) is Some,
        v is Text ==> text_of(v) is Some,
{
}

/// The canonical form of an object is an object, and it is empty only where the
/// object is.
pub proof fn lemma_canon_object(members: Members)
    ensures
        canon(JsonView::Object(members)) matches JsonView::Object(sorted) && (sorted.len() > 0
            <==> members.len() > 0),
{
    lemma_canon_members(members);
    let list = canon_members(members);
    if list.len() > 0 {
        lemma_put_grows(sorted_members(list.drop_last()), list.last().0, list.last().1);
    }
}

proof fn lemma_put_grows(list: Members, key: Seq<char>, value: JsonView)
    ensures
        put(list, key, value).len() > 0,
{
}

/// Documents that differ only in the order of their members say the same; a
/// canonical array keeps its order, each item in canonical form.
pub proof fn law_canonical_arrays_keep_their_order(items: Seq<JsonView>, i: int)
    requires
        0 <= i < items.len(),
    ensures
        canon(JsonView::Array(items)) matches JsonView::Array(out) && out.len() == items.len()
            && out[i] == canon(items[i]),
{
    lemma_canon_items(items);
}

} // verus!
