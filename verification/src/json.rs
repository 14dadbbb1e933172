//! A JSON value as the library holds it, its abstract model, and its compact
//! text.
//!
//! Objects keep their members in ascending key order without repeated keys,
//! as a `serde_json` map does; numbers keep the text `serde_json` gives them.
use vstd::prelude::*;
use vstd::string::*;
use crate::context::budget::{json_string, json_string_literal};
use crate::text::{
    append_chars, append_str, decimal, decimal_chars, decimal_string, digit_char, is_ascii_digit,
    lemma_decimal_len,
    str_chars, string_from_chars,
};

verus! {

/// A JSON value.
#[derive(Debug)]
pub enum Json {
    Null,
    Bool(bool),
    /// The number as `serde_json` writes it.
    Number(String),
    Str(String),
    Array(Vec<Json>),
    /// The members, in ascending key order.
    Object(Vec<(String, Json)>),
}

/// The abstract JSON value.
pub enum JsonModel {
    Null,
    Bool(bool),
    Number(Seq<char>),
    Str(Seq<char>),
    Array(Seq<JsonModel>),
    Object(Seq<(Seq<char>, JsonModel)>),
}

/// `serde_json::Value`, the value the `serde_json` parser gives.
#[verifier::external_type_specification]
#[verifier::external_body]
pub struct ExJsonValue(serde_json::Value);

/// What `serde_json::from_str::<Value>` reads from a text, as a model: `None`
/// where the text is not JSON.
pub uninterp spec fn json_parse(text: Seq<char>) -> Option<JsonModel>;

pub open spec fn parsed_model(r: Option<Json>) -> Option<JsonModel> {
    match r {
        Some(j) => Some(j@),
        None => None,
    }
}

/// Reads a text as JSON with `serde_json::from_str::<Value>`: the value,
/// or `None` where the parser refuses the text.
#[verifier::external_body]
pub(crate) fn parse_json(text: &str) -> (r: Option<Json>)
    ensures
        parsed_model(r) == json_parse(text@),
{
    match serde_json::from_str::<serde_json::Value>(text) {
        Ok(v) => Some(json_from_value(v)),
        Err(_) => None,
    }
}

/// A `serde_json::Value` as a `Json`, variant for variant; numbers as the
/// text `serde_json` writes for them.
#[verifier::external_body]
fn json_from_value(v: serde_json::Value) -> Json {
    match v {
        serde_json::Value::Null => Json::Null,
        serde_json::Value::Bool(b) => Json::Bool(b),
        serde_json::Value::Number(n) => Json::Number(n.to_string()),
        serde_json::Value::String(t) => Json::Str(t),
        serde_json::Value::Array(a) => Json::Array(a.into_iter().map(json_from_value).collect()),
        serde_json::Value::Object(m) => Json::Object(m.into_iter().map(|(k, x)| (k, json_from_value(x))).collect()),
    }
}

pub open spec fn json_model(j: Json) -> JsonModel
    decreases j, 0nat,
{
    match j {
        Json::Null => JsonModel::Null,
        Json::Bool(b) => JsonModel::Bool(b),
        Json::Number(t) => JsonModel::Number(t@),
        Json::Str(s) => JsonModel::Str(s@),
        Json::Array(items) => JsonModel::Array(item_models(items@)),
        Json::Object(members) => JsonModel::Object(member_models(members@)),
    }
}

pub open spec fn item_models(items: Seq<Json>) -> Seq<JsonModel>
    decreases items, 1nat,
{
    if items.len() == 0 {
        Seq::empty()
    } else {
        item_models(items.drop_last()).push(json_model(items.last()))
    }
}

pub open spec fn member_models(members: Seq<(String, Json)>) -> Seq<(Seq<char>, JsonModel)>
    decreases members, 1nat,
{
    if members.len() == 0 {
        Seq::empty()
    } else {
        member_models(members.drop_last()).push(
            (members.last().0@, json_model(members.last().1)),
        )
    }
}

impl View for Json {
    type V = JsonModel;

    open spec fn view(&self) -> JsonModel {
        json_model(*self)
    }
}


pub proof fn lemma_item_models(items: Seq<Json>)
    ensures
        item_models(items).len() == items.len(),
        forall|i: int| 0 <= i < items.len() ==> #[trigger] item_models(items)[i] == json_model(items[i]),
    decreases items.len(),
{
    if items.len() > 0 {
        lemma_item_models(items.drop_last());
    }
}

pub proof fn lemma_member_models(members: Seq<(String, Json)>)
    ensures
        member_models(members).len() == members.len(),
        forall|i: int|
            0 <= i < members.len() ==> #[trigger] member_models(members)[i] == (
                members[i].0@,
                json_model(members[i].1),
            ),
    decreases members.len(),
{
    if members.len() > 0 {
        lemma_member_models(members.drop_last());
    }
}

/// The compact JSON text of a value, as `serde_json::to_string` writes it.
pub open spec fn json_text(m: JsonModel) -> Seq<char>
    decreases m, 0nat,
{
    match m {
        JsonModel::Null => "null"@,
        JsonModel::Bool(b) => if b {
            "true"@
        } else {
            "false"@
        },
        JsonModel::Number(t) => t,
        JsonModel::Str(s) => json_string(s),
        JsonModel::Array(items) => "["@ + items_text(items) + "]"@,
        JsonModel::Object(members) => "{"@ + members_text(members) + "}"@,
    }
}

/// The texts of some values, separated by commas.
pub open spec fn items_text(items: Seq<JsonModel>) -> Seq<char>
    decreases items, 1nat,
{
    if items.len() == 0 {
        Seq::empty()
    } else if items.len() == 1 {
        json_text(items[0])
    } else {
        items_text(items.drop_last()) + ","@ + json_text(items.last())
    }
}

/// The texts of some members, `"key":value`, separated by commas.
pub open spec fn members_text(members: Seq<(Seq<char>, JsonModel)>) -> Seq<char>
    decreases members, 1nat,
{
    if members.len() == 0 {
        Seq::empty()
    } else if members.len() == 1 {
        json_string(members[0].0) + ":"@ + json_text(members[0].1)
    } else {
        members_text(members.drop_last()) + ","@ + json_string(members.last().0) + ":"@
            + json_text(members.last().1)
    }
}

impl Json {
    /// A copy of the value.
    pub fn deep_clone(&self) -> (r: Json)
        ensures
            r@ == self@,
        decreases self,
    {
        match self {
            Json::Null => Json::Null,
            Json::Bool(b) => Json::Bool(*b),
            Json::Number(t) => Json::Number(t.clone()),
            Json::Str(s) => Json::Str(s.clone()),
            Json::Array(items) => {
                let mut out: Vec<Json> = Vec::new();
                let mut i: usize = 0;
                while i < items.len()
                    invariant
                        i <= items.len(),
                        *self is Array,
                        (*self)->Array_0 == *items,
                        item_models(out@) == item_models(items@.take(i as int)),
                    decreases items.len() - i,
                {
                    proof {
                        assert(decreases_to!(*self => (*self)->Array_0));
                        assert(decreases_to!(*items => items@));
                        assert(decreases_to!(items@ => items@[i as int]));
                    }
                    let c = items[i].deep_clone();
                    let ghost before = out@;
                    out.push(c);
                    proof {
                        assert(out@.drop_last() =~= before);
                        assert(items@.take(i + 1).drop_last() =~= items@.take(i as int));
                    }
                    i = i + 1;
                }
                assert(items@.take(items.len() as int) =~= items@);
                Json::Array(out)
            },
            Json::Object(members) => {
                let mut out: Vec<(String, Json)> = Vec::new();
                let mut i: usize = 0;
                while i < members.len()
                    invariant
                        i <= members.len(),
                        *self is Object,
                        (*self)->Object_0 == *members,
                        member_models(out@) == member_models(members@.take(i as int)),
                    decreases members.len() - i,
                {
                    proof {
                        assert(decreases_to!(*self => (*self)->Object_0));
                        assert(decreases_to!(*members => members@));
                        assert(decreases_to!(members@ => members@[i as int]));
                        assert(decreases_to!(members@[i as int] => members@[i as int].1));
                    }
                    let c = members[i].1.deep_clone();
                    let k = members[i].0.clone();
                    let ghost before = out@;
                    out.push((k, c));
                    proof {
                        assert(out@.drop_last() =~= before);
                        assert(members@.take(i + 1).drop_last() =~= members@.take(i as int));
                    }
                    i = i + 1;
                }
                assert(members@.take(members.len() as int) =~= members@);
                Json::Object(out)
            },
        }
    }

    /// Appends the compact JSON text of the value.
    pub fn write_text(&self, out: &mut Vec<char>)
        ensures
            final(out)@ == old(out)@ + json_text(self@),
        decreases self,
    {
        match self {
            Json::Null => {
                append_str(out, "null");
                proof { reveal_strlit("null"); }
            },
            Json::Bool(b) => {
                if *b {
                    append_str(out, "true");
                } else {
                    append_str(out, "false");
                }
            },
            Json::Number(t) => {
                append_str(out, t.as_str());
            },
            Json::Str(s) => {
                let lit = json_string_literal(s.as_str());
                append_str(out, lit.as_str());
            },
            Json::Array(items) => {
                let ghost start = old(out)@;
                append_str(out, "[");
                proof {
                    lemma_item_models(items@);
                }
                let mut i: usize = 0;
                while i < items.len()
                    invariant
                        i <= items.len(),
                        *self is Array,
                        (*self)->Array_0 == *items,
                        item_models(items@).len() == items@.len(),
                        forall|k: int|
                            0 <= k < items@.len() ==> #[trigger] item_models(items@)[k]
                                == json_model(items@[k]),
                        out@ == start + "["@ + items_text(item_models(items@).take(i as int)),
                    decreases items.len() - i,
                {
                    let ghost ms = item_models(items@);
                    if i > 0 {
                        append_str(out, ",");
                    }
                    proof {
                        assert(decreases_to!(*self => (*self)->Array_0));
                        assert(decreases_to!(*items => items@));
                        assert(decreases_to!(items@ => items@[i as int]));
                    }
                    items[i].write_text(out);
                    proof {
                        let t = ms.take(i + 1);
                        assert(t.drop_last() =~= ms.take(i as int));
                        if i == 0 {
                            assert(t.len() == 1);
                        }
                    }
                    i = i + 1;
                }
                append_str(out, "]");
                proof {
                    assert(item_models(items@).take(items.len() as int) =~= item_models(items@));
                    assert(out@ =~= start + json_text(self@));
                }
            },
            Json::Object(members) => {
                let ghost start = old(out)@;
                append_str(out, "{");
                proof {
                    lemma_member_models(members@);
                }
                let mut i: usize = 0;
                while i < members.len()
                    invariant
                        i <= members.len(),
                        *self is Object,
                        (*self)->Object_0 == *members,
                        member_models(members@).len() == members@.len(),
                        forall|k: int|
                            0 <= k < members@.len() ==> #[trigger] member_models(members@)[k] == (
                                members@[k].0@,
                                json_model(members@[k].1),
                            ),
                        out@ == start + "{"@ + members_text(
                            member_models(members@).take(i as int),
                        ),
                    decreases members.len() - i,
                {
                    let ghost ms = member_models(members@);
                    if i > 0 {
                        append_str(out, ",");
                    }
                    let lit = json_string_literal(members[i].0.as_str());
                    append_str(out, lit.as_str());
                    append_str(out, ":");
                    proof {
                        assert(decreases_to!(*self => (*self)->Object_0));
                        assert(decreases_to!(*members => members@));
                        assert(decreases_to!(members@ => members@[i as int]));
                        assert(decreases_to!(members@[i as int] => members@[i as int].1));
                    }
                    members[i].1.write_text(out);
                    proof {
                        let t = ms.take(i + 1);
                        assert(t.drop_last() =~= ms.take(i as int));
                        if i == 0 {
                            assert(t.len() == 1);
                        }
                    }
                    i = i + 1;
                }
                append_str(out, "}");
                proof {
                    assert(member_models(members@).take(members.len() as int) =~= member_models(
                        members@,
                    ));
                    assert(out@ =~= start + json_text(self@));
                }
            },
        }
    }

    /// The compact JSON text of the value (`serde_json::to_string`).
    pub fn to_text(&self) -> (r: String)
        ensures
            r@ == json_text(self@),
    {
        let mut out: Vec<char> = Vec::new();
        self.write_text(&mut out);
        assert(out@ =~= json_text(self@));
        string_from_chars(out.as_slice())
    }
}


// ---------------------------------------------------------------------------
// Keys and members of objects.
// ---------------------------------------------------------------------------

/// The order of keys: character by character by code point, a proper
/// prefix first (the byte order of their UTF-8 text).
pub open spec fn key_lt(a: Seq<char>, b: Seq<char>) -> bool
    decreases a.len(),
{
    if a.len() == 0 {
        b.len() > 0
    } else if b.len() == 0 {
        false
    } else if a[0] != b[0] {
        a[0] < b[0]
    } else {
        key_lt(a.drop_first(), b.drop_first())
    }
}

pub proof fn lemma_key_lt_irreflexive(a: Seq<char>)
    ensures
        !key_lt(a, a),
    decreases a.len(),
{
    if a.len() > 0 {
        lemma_key_lt_irreflexive(a.drop_first());
    }
}

pub proof fn lemma_key_lt_asymmetric(a: Seq<char>, b: Seq<char>)
    ensures
        !(key_lt(a, b) && key_lt(b, a)),
    decreases a.len(),
{
    if a.len() > 0 && b.len() > 0 && a[0] == b[0] {
        lemma_key_lt_asymmetric(a.drop_first(), b.drop_first());
    }
}

pub proof fn lemma_key_lt_total(a: Seq<char>, b: Seq<char>)
    ensures
        a != b ==> key_lt(a, b) || key_lt(b, a),
    decreases a.len(),
{
    if a.len() > 0 && b.len() > 0 && a[0] == b[0] {
        lemma_key_lt_total(a.drop_first(), b.drop_first());
        if a.drop_first() == b.drop_first() {
            assert(a =~= seq![a[0]] + a.drop_first());
            assert(b =~= seq![b[0]] + b.drop_first());
        }
    } else if a.len() == 0 && b.len() == 0 {
        assert(a =~= b);
    } else if a.len() > 0 && b.len() > 0 {
        assert(a[0] != b[0]);
    }
}

pub proof fn lemma_key_lt_transitive(a: Seq<char>, b: Seq<char>, c: Seq<char>)
    requires
        key_lt(a, b),
        key_lt(b, c),
    ensures
        key_lt(a, c),
    decreases a.len(),
{
    if a.len() > 0 && b.len() > 0 && c.len() > 0 && a[0] == b[0] && b[0] == c[0] {
        lemma_key_lt_transitive(a.drop_first(), b.drop_first(), c.drop_first());
    }
}

/// Members in strictly ascending key order: no key twice.
pub open spec fn members_sorted(ms: Seq<(Seq<char>, JsonModel)>) -> bool {
    forall|i: int, j: int| 0 <= i < j < ms.len() ==> key_lt(#[trigger] ms[i].0, #[trigger] ms[j].0)
}

/// The value of the first member with the key.
pub open spec fn member_lookup(ms: Seq<(Seq<char>, JsonModel)>, key: Seq<char>) -> Option<JsonModel>
    decreases ms.len(),
{
    if ms.len() == 0 {
        None
    } else if ms[0].0 == key {
        Some(ms[0].1)
    } else {
        member_lookup(ms.drop_first(), key)
    }
}

/// `Value::get`: the member of an object with the key.
pub open spec fn field(m: JsonModel, key: Seq<char>) -> Option<JsonModel> {
    match m {
        JsonModel::Object(ms) => member_lookup(ms, key),
        _ => None,
    }
}

/// `Value::as_str`.
pub open spec fn as_text(m: Option<JsonModel>) -> Option<Seq<char>> {
    match m {
        Some(JsonModel::Str(s)) => Some(s),
        _ => None,
    }
}

/// Insertion into members kept in key order: a member with the key takes
/// the new value, else the member goes before the first larger key.
pub open spec fn member_insert(
    ms: Seq<(Seq<char>, JsonModel)>,
    key: Seq<char>,
    value: JsonModel,
) -> Seq<(Seq<char>, JsonModel)>
    decreases ms.len(),
{
    if ms.len() == 0 {
        seq![(key, value)]
    } else if ms[0].0 == key {
        seq![(key, value)] + ms.drop_first()
    } else if key_lt(key, ms[0].0) {
        seq![(key, value)] + ms
    } else {
        seq![ms[0]] + member_insert(ms.drop_first(), key, value)
    }
}

/// The members without those of the key.
pub open spec fn member_remove(ms: Seq<(Seq<char>, JsonModel)>, key: Seq<char>) -> Seq<
    (Seq<char>, JsonModel),
>
    decreases ms.len(),
{
    if ms.len() == 0 {
        ms
    } else if ms.last().0 == key {
        member_remove(ms.drop_last(), key)
    } else {
        member_remove(ms.drop_last(), key).push(ms.last())
    }
}

proof fn lemma_member_insert_at(
    ms: Seq<(Seq<char>, JsonModel)>,
    key: Seq<char>,
    value: JsonModel,
    i: int,
)
    requires
        0 <= i <= ms.len(),
        forall|j: int| 0 <= j < i ==> key_lt(#[trigger] ms[j].0, key),
        i < ms.len() ==> !key_lt(ms[i].0, key),
    ensures
        i < ms.len() && ms[i].0 == key ==> member_insert(ms, key, value) == ms.take(i).push(
            (key, value),
        ) + ms.skip(i + 1),
        !(i < ms.len() && ms[i].0 == key) ==> member_insert(ms, key, value) == ms.take(i).push(
            (key, value),
        ) + ms.skip(i),
    decreases i,
{
    if i == 0 {
        if ms.len() > 0 && ms[0].0 != key {
            lemma_key_lt_total(key, ms[0].0);
        }
        assert(ms.skip(0) =~= ms);
        if ms.len() > 0 {
            assert(ms.skip(1) =~= ms.drop_first());
        }
        assert(ms.take(0).push((key, value)) =~= seq![(key, value)]);
    } else {
        lemma_key_lt_irreflexive(key);
        assert(ms[0].0 != key);
        lemma_key_lt_asymmetric(key, ms[0].0);
        let rest = ms.drop_first();
        assert forall|j: int| 0 <= j < i - 1 implies key_lt(#[trigger] rest[j].0, key) by {
            assert(rest[j] == ms[j + 1]);
        }
        lemma_member_insert_at(rest, key, value, i - 1);
        assert(ms.take(i).push((key, value)) =~= seq![ms[0]] + rest.take(i - 1).push((key, value)));
        assert(ms.skip(i) =~= rest.skip(i - 1));
        if i < ms.len() && ms[i].0 == key {
            assert(ms.skip(i + 1) =~= rest.skip(i));
            assert(member_insert(ms, key, value) =~= ms.take(i).push((key, value)) + ms.skip(i + 1));
        } else {
            assert(member_insert(ms, key, value) =~= ms.take(i).push((key, value)) + ms.skip(i));
        }
    }
}

proof fn lemma_member_models_take(members: Seq<(String, Json)>, i: int)
    requires
        0 <= i <= members.len(),
    ensures
        member_models(members.take(i)) == member_models(members).take(i),
        member_models(members.skip(i)) == member_models(members).skip(i),
{
    lemma_member_models(members);
    lemma_member_models(members.take(i));
    lemma_member_models(members.skip(i));
    assert(member_models(members.take(i)) =~= member_models(members).take(i));
    assert(member_models(members.skip(i)) =~= member_models(members).skip(i));
}

/// Key order of two strings.
pub fn key_less(a: &str, b: &str) -> (r: bool)
    ensures
        r == key_lt(a@, b@),
{
    let av = str_chars(a);
    let bv = str_chars(b);
    let mut i: usize = 0;
    assert(a@.skip(0) =~= a@);
    assert(b@.skip(0) =~= b@);
    while i < av.len() && i < bv.len()
        invariant
            av@ == a@,
            bv@ == b@,
            i <= av.len(),
            i <= bv.len(),
            key_lt(a@, b@) == key_lt(a@.skip(i as int), b@.skip(i as int)),
        decreases av.len() - i,
    {
        if av[i] != bv[i] {
            return av[i] < bv[i];
        }
        proof {
            assert(a@.skip(i as int).drop_first() =~= a@.skip(i + 1));
            assert(b@.skip(i as int).drop_first() =~= b@.skip(i + 1));
        }
        i = i + 1;
    }
    av.len() == i && i < bv.len()
}

/// Equality of two strings.
pub fn same_text(a: &str, b: &str) -> (r: bool)
    ensures
        r == (a@ == b@),
{
    let av = str_chars(a);
    let bv = str_chars(b);
    if av.len() != bv.len() {
        return false;
    }
    let mut i: usize = 0;
    while i < av.len()
        invariant
            av@ == a@,
            bv@ == b@,
            av.len() == bv.len(),
            i <= av.len(),
            forall|k: int| 0 <= k < i ==> a@[k] == b@[k],
        decreases av.len() - i,
    {
        if av[i] != bv[i] {
            return false;
        }
        i = i + 1;
    }
    assert(a@ =~= b@);
    true
}

/// `Map::insert` on members in key order.
pub fn members_insert(members: &mut Vec<(String, Json)>, key: String, value: Json)
    ensures
        member_models(final(members)@) == member_insert(member_models(old(members)@), key@, value@),
{
    let ghost ms = member_models(members@);
    proof {
        lemma_member_models(members@);
    }
    let mut i: usize = 0;
    while i < members.len() && key_less(members[i].0.as_str(), key.as_str())
        invariant
            i <= members.len(),
            ms == member_models(members@),
            ms.len() == members@.len(),
            forall|k: int| 0 <= k < members@.len() ==> #[trigger] ms[k] == (
                members@[k].0@,
                json_model(members@[k].1),
            ),
            forall|j: int| 0 <= j < i ==> key_lt(#[trigger] ms[j].0, key@),
        decreases members.len() - i,
    {
        i = i + 1;
    }
    proof {
        lemma_member_insert_at(ms, key@, value@, i as int);
        lemma_member_models_take(members@, i as int);
        if i < members.len() {
            lemma_member_models_take(members@, i + 1);
        }
    }
    let ghost kv = key@;
    let ghost vv = value@;
    if i < members.len() && same_text(members[i].0.as_str(), key.as_str()) {
        let ghost before = members@;
        members.set(i, (key, value));
        proof {
            assert(members@ =~= before.take(i as int).push(members@[i as int]) + before.skip(i + 1));
            lemma_member_models(members@);
            lemma_member_models(before);
            assert(member_models(members@) =~= ms.take(i as int).push((kv, vv)) + ms.skip(i + 1));
        }
    } else {
        let ghost before = members@;
        members.insert(i, (key, value));
        proof {
            lemma_member_models(members@);
            lemma_member_models(before);
            assert(member_models(members@) =~= ms.take(i as int).push((kv, vv)) + ms.skip(i as int));
        }
    }
}

/// The members without those of the key.
pub fn members_without(members: &Vec<(String, Json)>, key: &str) -> (r: Vec<(String, Json)>)
    ensures
        member_models(r@) == member_remove(member_models(members@), key@),
{
    let mut out: Vec<(String, Json)> = Vec::new();
    let mut i: usize = 0;
    proof {
        lemma_member_models(members@);
    }
    while i < members.len()
        invariant
            i <= members.len(),
            member_models(members@).len() == members@.len(),
            forall|k: int| 0 <= k < members@.len() ==> #[trigger] member_models(members@)[k] == (
                members@[k].0@,
                json_model(members@[k].1),
            ),
            member_models(out@) == member_remove(member_models(members@).take(i as int), key@),
        decreases members.len() - i,
    {
        let ghost ms = member_models(members@);
        proof {
            assert(ms.take(i + 1).drop_last() =~= ms.take(i as int));
        }
        if !same_text(members[i].0.as_str(), key) {
            let ghost before = out@;
            let c = members[i].1.deep_clone();
            out.push((members[i].0.clone(), c));
            proof {
                assert(out@.drop_last() =~= before);
            }
        }
        i = i + 1;
    }
    assert(member_models(members@).take(members.len() as int) =~= member_models(members@));
    out
}

impl Json {
    /// `Value::get`: the member of an object with the key.
    pub fn get(&self, key: &str) -> (r: Option<&Json>)
        ensures
            match r {
                Some(v) => field(self@, key@) == Some(v@),
                None => field(self@, key@) is None,
            },
    {
        match self {
            Json::Object(members) => {
                proof {
                    lemma_member_models(members@);
                }
                let ghost ms = member_models(members@);
                let mut i: usize = 0;
                assert(ms.skip(0) =~= ms);
                assert(self@ == JsonModel::Object(ms));
                while i < members.len()
                    invariant
                        i <= members.len(),
                        ms == member_models(members@),
                        self@ == JsonModel::Object(ms),
                        ms.len() == members@.len(),
                        forall|k: int| 0 <= k < members@.len() ==> #[trigger] ms[k] == (
                            members@[k].0@,
                            json_model(members@[k].1),
                        ),
                        member_lookup(ms, key@) == member_lookup(ms.skip(i as int), key@),
                    decreases members.len() - i,
                {
                    proof {
                        assert(ms.skip(i as int)[0] == ms[i as int]);
                        assert(ms.skip(i as int).drop_first() =~= ms.skip(i + 1));
                    }
                    if same_text(members[i].0.as_str(), key) {
                        return Some(&members[i].1);
                    }
                    i = i + 1;
                }
                None
            },
            _ => None,
        }
    }

    /// `Value::as_str`.
    pub fn as_text(&self) -> (r: Option<&String>)
        ensures
            match r {
                Some(s) => self@ == JsonModel::Str(s@),
                None => !(self@ is Str),
            },
    {
        match self {
            Json::Str(s) => Some(s),
            _ => None,
        }
    }

    /// Structural equality of two values (`PartialEq for Value`).
    pub fn same_as(&self, other: &Json) -> (r: bool)
        ensures
            r == (self@ == other@),
        decreases self,
    {
        match (self, other) {
            (Json::Null, Json::Null) => true,
            (Json::Bool(a), Json::Bool(b)) => *a == *b,
            (Json::Number(a), Json::Number(b)) => same_text(a.as_str(), b.as_str()),
            (Json::Str(a), Json::Str(b)) => same_text(a.as_str(), b.as_str()),
            (Json::Array(a), Json::Array(b)) => {
                proof {
                    lemma_item_models(a@);
                    lemma_item_models(b@);
                }
                assert(self@ == JsonModel::Array(item_models(a@)));
                assert(other@ == JsonModel::Array(item_models(b@)));
                if a.len() != b.len() {
                    return false;
                }
                let mut i: usize = 0;
                while i < a.len()
                    invariant
                        i <= a.len(),
                        a.len() == b.len(),
                        *self is Array,
                        (*self)->Array_0 == *a,
                        self@ == JsonModel::Array(item_models(a@)),
                        other@ == JsonModel::Array(item_models(b@)),
                        item_models(a@).len() == a@.len(),
                        item_models(b@).len() == b@.len(),
                        forall|k: int| 0 <= k < a@.len() ==> #[trigger] item_models(a@)[k] == json_model(a@[k]),
                        forall|k: int| 0 <= k < b@.len() ==> #[trigger] item_models(b@)[k] == json_model(b@[k]),
                        forall|k: int| 0 <= k < i ==> item_models(a@)[k] == item_models(b@)[k],
                    decreases a.len() - i,
                {
                    proof {
                        assert(decreases_to!(*self => (*self)->Array_0));
                        assert(decreases_to!(*a => a@));
                        assert(decreases_to!(a@ => a@[i as int]));
                    }
                    if !a[i].same_as(&b[i]) {
                        assert(item_models(a@)[i as int] != item_models(b@)[i as int]);
                        return false;
                    }
                    i = i + 1;
                }
                assert(item_models(a@) =~= item_models(b@));
                true
            },
            (Json::Object(a), Json::Object(b)) => {
                proof {
                    lemma_member_models(a@);
                    lemma_member_models(b@);
                }
                assert(self@ == JsonModel::Object(member_models(a@)));
                assert(other@ == JsonModel::Object(member_models(b@)));
                if a.len() != b.len() {
                    return false;
                }
                let mut i: usize = 0;
                while i < a.len()
                    invariant
                        i <= a.len(),
                        a.len() == b.len(),
                        *self is Object,
                        (*self)->Object_0 == *a,
                        self@ == JsonModel::Object(member_models(a@)),
                        other@ == JsonModel::Object(member_models(b@)),
                        member_models(a@).len() == a@.len(),
                        member_models(b@).len() == b@.len(),
                        forall|k: int| 0 <= k < a@.len() ==> #[trigger] member_models(a@)[k] == (
                            a@[k].0@,
                            json_model(a@[k].1),
                        ),
                        forall|k: int| 0 <= k < b@.len() ==> #[trigger] member_models(b@)[k] == (
                            b@[k].0@,
                            json_model(b@[k].1),
                        ),
                        forall|k: int| 0 <= k < i ==> member_models(a@)[k] == member_models(b@)[k],
                    decreases a.len() - i,
                {
                    proof {
                        assert(decreases_to!(*self => (*self)->Object_0));
                        assert(decreases_to!(*a => a@));
                        assert(decreases_to!(a@ => a@[i as int]));
                        assert(decreases_to!(a@[i as int] => a@[i as int].1));
                    }
                    if !same_text(a[i].0.as_str(), b[i].0.as_str()) {
                        assert(member_models(a@)[i as int] != member_models(b@)[i as int]);
                        return false;
                    }
                    if !a[i].1.same_as(&b[i].1) {
                        assert(member_models(a@)[i as int] != member_models(b@)[i as int]);
                        return false;
                    }
                    i = i + 1;
                }
                assert(member_models(a@) =~= member_models(b@));
                true
            },
            _ => false,
        }
    }
}


// ---------------------------------------------------------------------------
// Numbers as unsigned integers.
// ---------------------------------------------------------------------------

/// The value of a digit character.
pub open spec fn digit_of(c: char) -> nat {
    ((c as u32) - 48) as nat
}

/// The value of a text of decimal digits.
pub open spec fn digit_value(t: Seq<char>) -> nat
    decreases t.len(),
{
    if t.len() == 0 {
        0
    } else {
        digit_value(t.drop_last()) * 10 + digit_of(t.last())
    }
}

/// `Value::as_u64` on the text of a number: the unsigned 64-bit integer
/// whose decimal text it is.
pub open spec fn number_u64(t: Seq<char>) -> Option<u64> {
    if exists|n: u64| decimal(n as nat) == t {
        Some(choose|n: u64| decimal(n as nat) == t)
    } else {
        None
    }
}

/// `Value::as_u64`.
pub open spec fn as_u64(m: Option<JsonModel>) -> Option<u64> {
    match m {
        Some(JsonModel::Number(t)) => number_u64(t),
        _ => None,
    }
}

proof fn lemma_digit_char(d: nat)
    requires
        d < 10,
    ensures
        digit_of(digit_char(d)) == d,
        is_ascii_digit(digit_char(d)),
        d > 0 ==> digit_char(d) != '0',
{
    assert(d % 10 == d);
}

pub proof fn lemma_decimal_value(n: nat)
    ensures
        digit_value(decimal(n)) == n,
        n >= 1 ==> decimal(n)[0] != '0',
        n < 10 <==> decimal(n).len() == 1,
    decreases n,
{
    lemma_decimal_len(n);
    if n < 10 {
        lemma_digit_char(n);
        assert(decimal(n).drop_last() =~= Seq::<char>::empty());
        assert(digit_value(decimal(n).drop_last()) == 0);
        assert(decimal(n).last() == digit_char(n));
        assert(digit_value(decimal(n)) == 0 * 10 + digit_of(digit_char(n)));
    } else {
        lemma_decimal_value(n / 10);
        lemma_decimal_len(n / 10);
        lemma_digit_char(n % 10);
        assert(decimal(n).drop_last() =~= decimal(n / 10));
        assert(decimal(n)[0] == decimal(n / 10)[0]);
        assert(n == (n / 10) * 10 + n % 10);
        assert(decimal(n).last() == digit_char(n % 10));
        assert(digit_value(decimal(n)) == digit_value(decimal(n / 10)) * 10 + digit_of(
            digit_char(n % 10),
        ));
    }
}

proof fn lemma_decimal_injective(a: nat, b: nat)
    requires
        decimal(a) == decimal(b),
    ensures
        a == b,
{
    lemma_decimal_value(a);
    lemma_decimal_value(b);
}

proof fn lemma_digit_value_prefix(t: Seq<char>, k: int)
    requires
        0 <= k <= t.len(),
    ensures
        digit_value(t.take(k)) <= digit_value(t),
    decreases t.len(),
{
    if k < t.len() {
        assert(t.drop_last().take(k) =~= t.take(k));
        lemma_digit_value_prefix(t.drop_last(), k);
    } else {
        assert(t.take(k) =~= t);
    }
}

proof fn lemma_digit_value_first(t: Seq<char>)
    requires
        t.len() >= 1,
        is_ascii_digit(t[0]),
        t[0] != '0',
    ensures
        digit_value(t) >= 1,
    decreases t.len(),
{
    if t.len() > 1 {
        lemma_digit_value_first(t.drop_last());
    } else {
        assert(t.drop_last().len() == 0);
    }
}

proof fn lemma_value_decimal(t: Seq<char>)
    requires
        t.len() >= 1,
        forall|i: int| 0 <= i < t.len() ==> is_ascii_digit(#[trigger] t[i]),
        t.len() == 1 || t[0] != '0',
    ensures
        decimal(digit_value(t)) == t,
    decreases t.len(),
{
    let n = digit_value(t);
    let d = digit_of(t.last());
    assert(d < 10);
    if t.len() == 1 {
        assert(t.drop_last().len() == 0);
        assert(digit_value(t.drop_last()) == 0);
        assert(n == 0 * 10 + d);
        assert(digit_char(d) == t[0]);
        assert(decimal(n) =~= t);
    } else {
        let p = t.drop_last();
        lemma_value_decimal(p);
        lemma_digit_value_first(p);
        assert(n / 10 == digit_value(p));
        assert(n % 10 == d);
        assert(digit_char(d) == t.last());
        assert(decimal(n) =~= decimal(digit_value(p)).push(t.last()));
        assert(t =~= p.push(t.last()));
    }
}

/// `Value::as_u64` on the text of a number.
pub fn number_as_u64(t: &str) -> (r: Option<u64>)
    ensures
        r == number_u64(t@),
{
    let v = str_chars(t);
    if v.len() == 0 {
        proof {
            assert forall|n: u64| decimal(n as nat) != t@ by {
                lemma_decimal_len(n as nat);
            }
        }
        return None;
    }
    if v.len() > 1 && v[0] == '0' {
        proof {
            assert forall|n: u64| decimal(n as nat) != t@ by {
                lemma_decimal_value(n as nat);
                if n == 0 {
                    assert(decimal(0).len() == 1);
                }
            }
        }
        return None;
    }
    let mut n: u64 = 0;
    let mut i: usize = 0;
    while i < v.len()
        invariant
            v@ == t@,
            v.len() >= 1,
            v.len() == 1 || v@[0] != '0',
            i <= v.len(),
            n == digit_value(v@.take(i as int)),
            forall|k: int| 0 <= k < i ==> is_ascii_digit(#[trigger] v@[k]),
        decreases v.len() - i,
    {
        let c = v[i];
        if !('0' <= c && c <= '9') {
            proof {
                assert forall|m: u64| decimal(m as nat) != t@ by {
                    lemma_decimal_len(m as nat);
                    if decimal(m as nat) == t@ {
                        assert(is_ascii_digit(decimal(m as nat)[i as int]));
                    }
                }
            }
            return None;
        }
        let d = ((c as u32) - 48) as u64;
        proof {
            assert(v@.take(i + 1).drop_last() =~= v@.take(i as int));
        }
        let next = match n.checked_mul(10) {
            Some(m) => m.checked_add(d),
            None => None,
        };
        match next {
            Some(x) => {
                n = x;
            },
            None => {
                proof {
                    assert(digit_value(v@.take(i + 1)) > u64::MAX);
                    assert forall|m: u64| decimal(m as nat) != t@ by {
                        if decimal(m as nat) == t@ {
                            lemma_decimal_value(m as nat);
                            lemma_digit_value_prefix(t@, i + 1);
                        }
                    }
                }
                return None;
            },
        }
        i = i + 1;
    }
    proof {
        assert(v@.take(v.len() as int) =~= v@);
        lemma_value_decimal(t@);
        assert(decimal(n as nat) == t@);
        let m = choose|m: u64| decimal(m as nat) == t@;
        lemma_decimal_injective(m as nat, n as nat);
    }
    Some(n)
}


// ---------------------------------------------------------------------------
// Members kept in key order behave as a map.
// ---------------------------------------------------------------------------

proof fn lemma_remove_front(x: (Seq<char>, JsonModel), rest: Seq<(Seq<char>, JsonModel)>, key: Seq<char>)
    ensures
        member_remove(seq![x] + rest, key) == if x.0 == key {
            member_remove(rest, key)
        } else {
            seq![x] + member_remove(rest, key)
        },
    decreases rest.len(),
{
    let all = seq![x] + rest;
    if rest.len() == 0 {
        assert(all =~= seq![x]);
        assert(all.drop_last() =~= Seq::<(Seq<char>, JsonModel)>::empty());
        assert(member_remove(Seq::<(Seq<char>, JsonModel)>::empty(), key) =~= Seq::<(Seq<char>, JsonModel)>::empty());
        if x.0 != key {
            assert(member_remove(all, key) =~= seq![x]);
        }
    } else {
        lemma_remove_front(x, rest.drop_last(), key);
        assert(all.drop_last() =~= seq![x] + rest.drop_last());
        assert(all.last() == rest.last());
        if x.0 == key {
            assert(member_remove(all, key) =~= member_remove(rest, key));
        } else {
            assert(member_remove(all, key) =~= seq![x] + member_remove(rest, key));
        }
    }
}

proof fn lemma_sorted_tail(ms: Seq<(Seq<char>, JsonModel)>)
    requires
        members_sorted(ms),
        ms.len() > 0,
    ensures
        members_sorted(ms.drop_first()),
        forall|j: int| 0 <= j < ms.drop_first().len() ==> key_lt(ms[0].0, #[trigger] ms.drop_first()[j].0),
{
    let r = ms.drop_first();
    assert forall|i: int, j: int| 0 <= i < j < r.len() implies key_lt(#[trigger] r[i].0, #[trigger] r[j].0) by {
        assert(r[i] == ms[i + 1] && r[j] == ms[j + 1]);
    }
    assert forall|j: int| 0 <= j < r.len() implies key_lt(ms[0].0, #[trigger] r[j].0) by {
        assert(r[j] == ms[j + 1]);
    }
}

proof fn lemma_sorted_cons(x: (Seq<char>, JsonModel), rest: Seq<(Seq<char>, JsonModel)>)
    requires
        members_sorted(rest),
        forall|j: int| 0 <= j < rest.len() ==> key_lt(x.0, #[trigger] rest[j].0),
    ensures
        members_sorted(seq![x] + rest),
{
    let all = seq![x] + rest;
    assert forall|i: int, j: int| 0 <= i < j < all.len() implies key_lt(#[trigger] all[i].0, #[trigger] all[j].0) by {
        if i == 0 {
            assert(all[j] == rest[j - 1]);
        } else {
            assert(all[i] == rest[i - 1] && all[j] == rest[j - 1]);
        }
    }
}

/// Every member left by a removal was a member before.
proof fn lemma_remove_subset(ms: Seq<(Seq<char>, JsonModel)>, key: Seq<char>)
    ensures
        forall|i: int| 0 <= i < member_remove(ms, key).len() ==> exists|j: int|
            0 <= j < ms.len() && ms[j] == #[trigger] member_remove(ms, key)[i],
        forall|i: int| 0 <= i < member_remove(ms, key).len() ==> (#[trigger] member_remove(ms, key)[i]).0 != key,
    decreases ms.len(),
{
    if ms.len() > 0 {
        lemma_remove_subset(ms.drop_last(), key);
        let r = member_remove(ms.drop_last(), key);
        assert forall|i: int| 0 <= i < member_remove(ms, key).len() implies exists|j: int|
            0 <= j < ms.len() && ms[j] == #[trigger] member_remove(ms, key)[i] by {
            if i < r.len() {
                let j = choose|j: int| 0 <= j < ms.drop_last().len() && ms.drop_last()[j] == r[i];
                assert(ms[j] == ms.drop_last()[j]);
            } else {
                assert(member_remove(ms, key)[i] == ms[ms.len() - 1]);
            }
        }
    }
}

/// Removal keeps the members in key order.
pub proof fn lemma_remove_sorted(ms: Seq<(Seq<char>, JsonModel)>, key: Seq<char>)
    requires
        members_sorted(ms),
    ensures
        members_sorted(member_remove(ms, key)),
    decreases ms.len(),
{
    if ms.len() > 0 {
        lemma_sorted_tail(ms);
        lemma_remove_sorted(ms.drop_first(), key);
        lemma_remove_front(ms[0], ms.drop_first(), key);
        assert(ms =~= seq![ms[0]] + ms.drop_first());
        if ms[0].0 != key {
            let r = member_remove(ms.drop_first(), key);
            lemma_remove_subset(ms.drop_first(), key);
            assert forall|j: int| 0 <= j < r.len() implies key_lt(ms[0].0, #[trigger] r[j].0) by {
                let k = choose|k: int| 0 <= k < ms.drop_first().len() && ms.drop_first()[k] == r[j];
            }
            lemma_sorted_cons(ms[0], r);
        }
    }
}

proof fn lemma_remove_absent(ms: Seq<(Seq<char>, JsonModel)>, key: Seq<char>)
    requires
        forall|j: int| 0 <= j < ms.len() ==> (#[trigger] ms[j]).0 != key,
    ensures
        member_remove(ms, key) == ms,
    decreases ms.len(),
{
    if ms.len() > 0 {
        lemma_remove_absent(ms.drop_last(), key);
        assert(ms.drop_last().push(ms.last()) =~= ms);
    }
}

/// Insertion keeps the members in key order.
pub proof fn lemma_insert_sorted(ms: Seq<(Seq<char>, JsonModel)>, key: Seq<char>, value: JsonModel)
    requires
        members_sorted(ms),
    ensures
        members_sorted(member_insert(ms, key, value)),
        forall|j: int| 0 <= j < member_insert(ms, key, value).len() ==> (#[trigger] member_insert(
            ms,
            key,
            value,
        )[j]).0 == key || exists|i: int| 0 <= i < ms.len() && ms[i].0 == member_insert(ms, key, value)[j].0,
    decreases ms.len(),
{
    if ms.len() == 0 {
        lemma_sorted_cons((key, value), ms);
        assert(seq![(key, value)] + ms =~= seq![(key, value)]);
    } else {
        lemma_sorted_tail(ms);
        let rest = ms.drop_first();
        assert(ms =~= seq![ms[0]] + rest);
        if ms[0].0 == key {
            lemma_sorted_cons((key, value), rest);
        } else if key_lt(key, ms[0].0) {
            assert forall|j: int| 0 <= j < ms.len() implies key_lt(key, #[trigger] ms[j].0) by {
                if j > 0 {
                    lemma_key_lt_transitive(key, ms[0].0, ms[j].0);
                }
            }
            lemma_sorted_cons((key, value), ms);
        } else {
            lemma_key_lt_total(key, ms[0].0);
            lemma_insert_sorted(rest, key, value);
            let ins = member_insert(rest, key, value);
            assert forall|j: int| 0 <= j < ins.len() implies key_lt(ms[0].0, #[trigger] ins[j].0) by {
                if ins[j].0 != key {
                    let i = choose|i: int| 0 <= i < rest.len() && rest[i].0 == ins[j].0;
                }
            }
            lemma_sorted_cons(ms[0], ins);
            let all = member_insert(ms, key, value);
            assert forall|j: int| 0 <= j < all.len() implies (#[trigger] all[j]).0 == key || exists|i: int|
                0 <= i < ms.len() && ms[i].0 == all[j].0 by {
                if j == 0 {
                    assert(ms[0].0 == all[0].0);
                } else {
                    assert(all[j] == ins[j - 1]);
                    if ins[j - 1].0 != key {
                        let i = choose|i: int| 0 <= i < rest.len() && rest[i].0 == ins[j - 1].0;
                        assert(ms[i + 1].0 == all[j].0);
                    }
                }
            }
        }
    }
}

/// Inserting a member replaces any member of the key: removing it first
/// changes nothing.
pub proof fn lemma_insert_after_remove(ms: Seq<(Seq<char>, JsonModel)>, key: Seq<char>, value: JsonModel)
    requires
        members_sorted(ms),
    ensures
        member_insert(member_remove(ms, key), key, value) == member_insert(ms, key, value),
    decreases ms.len(),
{
    if ms.len() > 0 {
        lemma_sorted_tail(ms);
        let rest = ms.drop_first();
        assert(ms =~= seq![ms[0]] + rest);
        lemma_remove_front(ms[0], rest, key);
        if ms[0].0 == key {
            assert forall|j: int| 0 <= j < rest.len() implies (#[trigger] rest[j]).0 != key by {
                lemma_key_lt_irreflexive(key);
            }
            lemma_remove_absent(rest, key);
            if rest.len() > 0 {
                assert(key_lt(key, rest[0].0));
                assert(member_insert(rest, key, value) =~= seq![(key, value)] + rest);
            } else {
                assert(member_insert(rest, key, value) =~= seq![(key, value)]);
                assert(seq![(key, value)] + rest =~= seq![(key, value)]);
            }
        } else if key_lt(key, ms[0].0) {
            assert forall|j: int| 0 <= j < ms.len() implies (#[trigger] ms[j]).0 != key by {
                if j > 0 {
                    lemma_key_lt_transitive(key, ms[0].0, ms[j].0);
                }
                lemma_key_lt_irreflexive(key);
            }
            lemma_remove_absent(ms, key);
        } else {
            lemma_insert_after_remove(rest, key, value);
            let r = member_remove(rest, key);
            assert((seq![ms[0]] + r)[0] == ms[0]);
            assert((seq![ms[0]] + r).drop_first() =~= r);
        }
    }
}

/// Removing one key and inserting another commute.
pub proof fn lemma_remove_insert_commute(
    ms: Seq<(Seq<char>, JsonModel)>,
    removed: Seq<char>,
    key: Seq<char>,
    value: JsonModel,
)
    requires
        members_sorted(ms),
        removed != key,
    ensures
        member_remove(member_insert(ms, key, value), removed) == member_insert(
            member_remove(ms, removed),
            key,
            value,
        ),
    decreases ms.len(),
{
    if ms.len() == 0 {
        lemma_remove_front((key, value), ms, removed);
        assert(seq![(key, value)] + ms =~= seq![(key, value)]);
        assert(member_remove(ms, removed) =~= ms);
        assert(member_remove(ms, removed) == ms);
    } else {
        lemma_sorted_tail(ms);
        let x = ms[0];
        let rest = ms.drop_first();
        assert(ms =~= seq![x] + rest);
        lemma_remove_front(x, rest, removed);
        let rr = member_remove(rest, removed);
        if x.0 == key {
            lemma_remove_front((key, value), rest, removed);
            if rr.len() > 0 {
                lemma_remove_subset(rest, removed);
                let j = choose|j: int| 0 <= j < rest.len() && rest[j] == rr[0];
                assert((seq![x] + rr)[0] == x);
                assert((seq![x] + rr).drop_first() =~= rr);
            } else {
                assert((seq![x] + rr)[0] == x);
                assert((seq![x] + rr).drop_first() =~= rr);
            }
        } else if key_lt(key, x.0) {
            lemma_remove_front((key, value), ms, removed);
            if x.0 == removed {
                if rr.len() > 0 {
                    lemma_remove_subset(rest, removed);
                    let j = choose|j: int| 0 <= j < rest.len() && rest[j] == rr[0];
                    lemma_key_lt_transitive(key, x.0, rr[0].0);
                    lemma_key_lt_irreflexive(key);
                    lemma_key_lt_asymmetric(key, rr[0].0);
                } else {
                    assert(member_insert(rr, key, value) =~= seq![(key, value)]);
                    assert(seq![(key, value)] + rr =~= seq![(key, value)]);
                }
            } else {
                assert((seq![x] + rr)[0] == x);
                assert((seq![x] + rr).drop_first() =~= rr);
                assert(member_insert(seq![x] + rr, key, value) =~= seq![(key, value)] + (seq![x] + rr));
            }
        } else {
            lemma_key_lt_total(key, x.0);
            lemma_remove_insert_commute(rest, removed, key, value);
            lemma_remove_front(x, member_insert(rest, key, value), removed);
            if x.0 == removed {
                assert(member_insert(ms, key, value) =~= seq![x] + member_insert(rest, key, value));
            } else {
                assert((seq![x] + rr)[0] == x);
                assert((seq![x] + rr).drop_first() =~= rr);
                lemma_key_lt_irreflexive(key);
                lemma_key_lt_asymmetric(key, x.0);
            }
        }
    }
}

proof fn lemma_lookup_index(ms: Seq<(Seq<char>, JsonModel)>, key: Seq<char>)
    requires
        member_lookup(ms, key) is Some,
    ensures
        exists|j: int| 0 <= j < ms.len() && ms[j].0 == key && ms[j].1 == member_lookup(ms, key)->Some_0,
    decreases ms.len(),
{
    if ms[0].0 != key {
        lemma_lookup_index(ms.drop_first(), key);
        let j = choose|j: int|
            0 <= j < ms.drop_first().len() && ms.drop_first()[j].0 == key && ms.drop_first()[j].1
                == member_lookup(ms.drop_first(), key)->Some_0;
        assert(ms[j + 1] == ms.drop_first()[j]);
    }
}

/// Inserting a member an object already has leaves it unchanged.
pub proof fn lemma_insert_present(ms: Seq<(Seq<char>, JsonModel)>, key: Seq<char>, value: JsonModel)
    requires
        members_sorted(ms),
        member_lookup(ms, key) == Some(value),
    ensures
        member_insert(ms, key, value) == ms,
    decreases ms.len(),
{
    lemma_sorted_tail(ms);
    let rest = ms.drop_first();
    if ms[0].0 == key {
        assert(seq![(key, value)] + rest =~= ms);
    } else {
        lemma_lookup_index(rest, key);
        let j = choose|j: int| 0 <= j < rest.len() && rest[j].0 == key && rest[j].1 == value;
        assert(key_lt(ms[0].0, rest[j].0));
        lemma_key_lt_asymmetric(key, ms[0].0);
        lemma_insert_present(rest, key, value);
        assert(seq![ms[0]] + rest =~= ms);
    }
}



/// The decimal text of an unsigned integer reads back as that integer.
pub proof fn lemma_number_u64_decimal(n: u64)
    ensures
        number_u64(decimal(n as nat)) == Some(n),
{
    let m = choose|m: u64| decimal(m as nat) == decimal(n as nat);
    lemma_decimal_injective(m as nat, n as nat);
}


// ---------------------------------------------------------------------------
// Reading and writing members.
// ---------------------------------------------------------------------------

pub open spec fn opt_text(o: Option<String>) -> Option<Seq<char>> {
    match o {
        Some(s) => Some(s@),
        None => None,
    }
}

pub open spec fn text_of(m: JsonModel, key: Seq<char>) -> Option<Seq<char>> {
    as_text(field(m, key))
}

/// `payload[key] = value` on a JSON value: an object takes the member, `null`
/// becomes an object of that one member, anything else is left alone.
pub open spec fn set_member(m: JsonModel, key: Seq<char>, value: JsonModel) -> JsonModel {
    match m {
        JsonModel::Object(ms) => JsonModel::Object(member_insert(ms, key, value)),
        JsonModel::Null => JsonModel::Object(seq![(key, value)]),
        _ => m,
    }
}

pub fn set_member_exec(target: &mut Json, key: &str, value: Json)
    ensures
        final(target)@ == set_member(old(target)@, key@, value@),
{
    let k = String::from_str(key);
    match target {
        Json::Object(members) => {
            members_insert(members, k, value);
        },
        Json::Null => {
            let mut members: Vec<(String, Json)> = Vec::new();
            members.push((k, value));
            proof {
                lemma_member_models(members@);
                assert(member_models(members@) =~= seq![(key@, value@)]);
            }
            *target = Json::Object(members);
        },
        _ => {},
    }
}

/// The text of a member, as a string.
pub fn text_field(v: &Json, key: &str) -> (r: Option<String>)
    ensures
        opt_text(r) == as_text(field(v@, key@)),
{
    match v.get(key) {
        Some(x) => match x.as_text() {
            Some(s) => Some(s.clone()),
            None => None,
        },
        None => None,
    }
}

pub fn json_number(n: u64) -> (j: Json)
    ensures
        j@ == JsonModel::Number(decimal(n as nat)),
{
    Json::Number(decimal_string(n))
}

pub fn json_str(s: &str) -> (j: Json)
    ensures
        j@ == JsonModel::Str(s@),
{
    Json::Str(String::from_str(s))
}

pub fn member(key: &str, value: Json) -> (m: (String, Json))
    ensures
        m.0@ == key@,
        m.1@ == value@,
{
    (String::from_str(key), value)
}

/// An object of members given in key order.
pub fn object_of(members: Vec<(String, Json)>) -> (j: Json)
    ensures
        j@ == JsonModel::Object(member_models(members@)),
{
    Json::Object(members)
}

} // verus!
