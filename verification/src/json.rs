//! JSON documents, read from bytes by `serde_json`, and their copies as
//! trees of plain values, from which fields are read.
use vstd::prelude::*;
use crate::text::str_eq;

verus! {

/// `serde_json::Value`, carried from the reader to the copy as an opaque
/// value.
#[verifier::external_type_specification]
#[verifier::external_body]
pub struct ExValue(serde_json::Value);

/// `serde_json::Error`, of which nothing is read.
#[verifier::external_type_specification]
#[verifier::external_body]
pub struct ExError(serde_json::Error);

/// `serde_json::Map`, the collection in which a JSON object keeps its
/// members.
#[verifier::external_type_specification]
#[verifier::external_body]
#[verifier::reject_recursive_types(K)]
#[verifier::reject_recursive_types(V)]
pub struct ExMap<K, V>(serde_json::Map<K, V>);

/// A JSON number, held by what can be read from it without floating point.
#[derive(Debug, PartialEq, Eq)]
pub struct JsonNumber {
    /// The number as a `u64`, if it is a non-negative integer that fits.
    pub unsigned: Option<u64>,
    /// The number written out in decimal.
    pub text: String,
}

/// The mathematical content of a [`JsonNumber`].
pub struct NumberView {
    pub unsigned: Option<u64>,
    pub text: Seq<char>,
}

impl View for JsonNumber {
    type V = NumberView;

    open spec fn view(&self) -> NumberView {
        NumberView { unsigned: self.unsigned, text: self.text@ }
    }
}

/// A JSON value. An object keeps its members in the order in which the
/// document's reader hands them out.
#[derive(Debug, PartialEq, Eq)]
pub enum Json {
    Null,
    Bool(bool),
    Number(JsonNumber),
    Text(String),
    Array(Vec<Json>),
    Object(Vec<(String, Json)>),
}

/// The mathematical content of a [`Json`] value.
pub enum JsonView {
    Null,
    Bool(bool),
    Number(NumberView),
    Text(Seq<char>),
    Array(Seq<JsonView>),
    Object(Seq<(Seq<char>, JsonView)>),
}

impl View for Json {
    type V = JsonView;

    open spec fn view(&self) -> JsonView
        decreases self, 0nat,
    {
        match self {
            Json::Null => JsonView::Null,
            Json::Bool(b) => JsonView::Bool(*b),
            Json::Number(n) => JsonView::Number(n@),
            Json::Text(s) => JsonView::Text(s@),
            Json::Array(items) => JsonView::Array(spec_items_upto(items@, items@.len())),
            Json::Object(members) => JsonView::Object(
                spec_members_upto(members@, members@.len()),
            ),
        }
    }
}

/// The content of the first `n` items of an array, in order.
pub open spec fn spec_items_upto(items: Seq<Json>, n: nat) -> Seq<JsonView>
    decreases items, n,
{
    if n == 0 || n > items.len() {
        Seq::empty()
    } else {
        spec_items_upto(items, (n - 1) as nat).push(items[n - 1].view())
    }
}

/// The content of the first `n` members of an object, in order.
pub open spec fn spec_members_upto(members: Seq<(String, Json)>, n: nat) -> Seq<
    (Seq<char>, JsonView),
>
    decreases members, n,
{
    if n == 0 || n > members.len() {
        Seq::empty()
    } else {
        spec_members_upto(members, (n - 1) as nat).push(
            (members[n - 1].0@, members[n - 1].1.view()),
        )
    }
}

/// The content of the members of an object, in order.
pub open spec fn spec_members(members: Seq<(String, Json)>) -> Seq<(Seq<char>, JsonView)> {
    Seq::new(members.len(), |i: int| (members[i].0@, members[i].1@))
}

/// The content of the items of an array, in order.
pub open spec fn spec_items(items: Seq<Json>) -> Seq<JsonView> {
    Seq::new(items.len(), |i: int| items[i]@)
}

proof fn lemma_members_upto(members: Seq<(String, Json)>, n: nat)
    requires
        n <= members.len(),
    ensures
        spec_members_upto(members, n) == spec_members(members.take(n as int)),
    decreases n,
{
    if n > 0 {
        lemma_members_upto(members, (n - 1) as nat);
        assert(spec_members(members.take(n as int)) =~= spec_members(
            members.take(n - 1),
        ).push((members[n - 1].0@, members[n - 1].1@)));
    } else {
        assert(spec_members(members.take(0)) =~= Seq::empty());
    }
}

proof fn lemma_items_upto(items: Seq<Json>, n: nat)
    requires
        n <= items.len(),
    ensures
        spec_items_upto(items, n) == spec_items(items.take(n as int)),
    decreases n,
{
    if n > 0 {
        lemma_items_upto(items, (n - 1) as nat);
        assert(spec_items(items.take(n as int)) =~= spec_items(items.take(n - 1)).push(
            items[n - 1]@,
        ));
    } else {
        assert(spec_items(items.take(0)) =~= Seq::empty());
    }
}

/// The view of an object is the content of its members.
pub proof fn lemma_object_view(members: Vec<(String, Json)>)
    ensures
        Json::Object(members)@ == JsonView::Object(spec_members(members@)),
{
    lemma_members_upto(members@, members@.len());
    assert(members@.take(members@.len() as int) == members@);
}

/// The view of an array is the content of its items.
pub proof fn lemma_array_view(items: Vec<Json>)
    ensures
        Json::Array(items)@ == JsonView::Array(spec_items(items@)),
{
    lemma_items_upto(items@, items@.len());
    assert(items@.take(items@.len() as int) == items@);
}

/// The value under the first member of `members` named `key`, if there is one.
pub open spec fn spec_lookup(members: Seq<(Seq<char>, JsonView)>, key: Seq<char>) -> Option<
    JsonView,
>
    decreases members.len(),
{
    if members.len() == 0 {
        None
    } else if members[0].0 == key {
        Some(members[0].1)
    } else {
        spec_lookup(members.drop_first(), key)
    }
}

impl JsonView {
    /// The members of an object; no members for any other value.
    pub open spec fn members(self) -> Seq<(Seq<char>, JsonView)> {
        match self {
            JsonView::Object(members) => members,
            _ => Seq::empty(),
        }
    }

    /// The member named `key` of an object; `None` for any other value.
    pub open spec fn get(self, key: Seq<char>) -> Option<JsonView> {
        spec_lookup(self.members(), key)
    }

    /// The text of a string value.
    pub open spec fn as_text(self) -> Option<Seq<char>> {
        match self {
            JsonView::Text(s) => Some(s),
            _ => None,
        }
    }
}

/// The content of an optional value.
pub open spec fn spec_opt_view(value: Option<&Json>) -> Option<JsonView> {
    match value {
        Some(j) => Some(j@),
        None => None,
    }
}

/// Finds the value under the first member of `members` named `key`.
pub fn lookup<'a>(members: &'a Vec<(String, Json)>, key: &str) -> (r: Option<&'a Json>)
    ensures
        spec_opt_view(r) == spec_lookup(spec_members(members@), key@),
{
    let ghost all = spec_members(members@);
    let mut i: usize = 0;
    assert(all.skip(0) == all);
    while i < members.len()
        invariant
            i <= members.len(),
            all == spec_members(members@),
            spec_lookup(all, key@) == spec_lookup(all.skip(i as int), key@),
        decreases members.len() - i,
    {
        assert(all.skip(i as int)[0] == all[i as int]);
        if str_eq(members[i].0.as_str(), key) {
            return Some(&members[i].1);
        }
        assert(all.skip(i as int).drop_first() == all.skip(i + 1));
        i += 1;
    }
    None
}

impl Json {
    /// The members of an object, or `None` for any other value.
    pub fn as_object(&self) -> (r: Option<&Vec<(String, Json)>>)
        ensures
            r is Some <==> self@ is Object,
            r matches Some(members) ==> self@ == JsonView::Object(spec_members(members@)),
    {
        match self {
            Json::Object(members) => {
                proof {
                    lemma_object_view(*members);
                }
                Some(members)
            },
            _ => None,
        }
    }

    /// The text of a string value, or `None` for any other value.
    pub fn as_str(&self) -> (r: Option<&str>)
        ensures
            r is Some <==> self@ is Text,
            r matches Some(s) ==> self@ == JsonView::Text(s@),
    {
        match self {
            Json::Text(s) => Some(s.as_str()),
            _ => None,
        }
    }

    /// The member named `key` of an object, or `None`.
    pub fn get(&self, key: &str) -> (r: Option<&Json>)
        ensures
            spec_opt_view(r) == self@.get(key@),
    {
        match self.as_object() {
            Some(members) => lookup(members, key),
            None => None,
        }
    }
}

/// The tree that a `serde_json::Value` holds.
pub uninterp spec fn value_tree(value: serde_json::Value) -> JsonView;

/// The members that a `serde_json::Map` holds, each with the tree of its
/// value, in the order in which the map hands them out.
pub uninterp spec fn map_members(map: serde_json::Map<String, serde_json::Value>) -> Seq<
    (Seq<char>, JsonView),
>;

/// The tree that `serde_json` reads from a JSON text, or `None` where it
/// rejects the text.
pub uninterp spec fn json_document(bytes: Seq<u8>) -> Option<JsonView>;

/// The members of a list of entries, each with the tree of its value.
pub open spec fn spec_entry_trees(entries: Seq<(String, serde_json::Value)>) -> Seq<
    (Seq<char>, JsonView),
> {
    Seq::new(entries.len(), |i: int| (entries[i].0@, value_tree(entries[i].1)))
}

/// Reads one JSON document with `serde_json::from_slice`. The text is accepted
/// exactly when `json_document` has a tree for it, and the value then holds
/// that tree.
#[verifier::external_body]
pub(crate) fn read_value(bytes: &[u8]) -> (r: Result<serde_json::Value, serde_json::Error>)
    ensures
        r is Ok <==> json_document(bytes@) is Some,
        r matches Ok(value) ==> json_document(bytes@) == Some(value_tree(value)),
{
    serde_json::from_slice::<serde_json::Value>(bytes)
}

/// Copies a `serde_json::Value` into a [`Json`], variant by variant. A number
/// is kept as what `Number::as_u64` returns and as the text that the
/// `Display` impl of `Number` writes; an object's members come in the order in
/// which `Map::iter` yields them.
#[verifier::external_body]
pub(crate) fn tree_of(value: &serde_json::Value) -> (r: Json)
    ensures
        r@ == value_tree(*value),
{
    match value {
        serde_json::Value::Null => Json::Null,
        serde_json::Value::Bool(b) => Json::Bool(*b),
        serde_json::Value::Number(n) => Json::Number(
            JsonNumber { unsigned: n.as_u64(), text: n.to_string() },
        ),
        serde_json::Value::String(s) => Json::Text(s.clone()),
        serde_json::Value::Array(a) => Json::Array(a.iter().map(tree_of).collect()),
        serde_json::Value::Object(m) => Json::Object(
            m.iter().map(|(k, v)| (k.clone(), tree_of(v))).collect(),
        ),
    }
}

/// Takes the map out of a `serde_json::Value` that is an object: the value
/// is an object exactly when a map comes back, and its members are the map's.
#[verifier::external_body]
pub(crate) fn object_of(value: serde_json::Value) -> (r: Option<
    serde_json::Map<String, serde_json::Value>,
>)
    ensures
        r is Some <==> value_tree(value) is Object,
        r matches Some(map) ==> value_tree(value) == JsonView::Object(map_members(map)),
{
    match value {
        serde_json::Value::Object(map) => Some(map),
        _ => None,
    }
}

/// Lists copies of the members of a map with `Map::iter`, in the order in
/// which it yields them.
#[verifier::external_body]
pub(crate) fn entries_of(map: &serde_json::Map<String, serde_json::Value>) -> (r: Vec<
    (String, serde_json::Value),
>)
    ensures
        spec_entry_trees(r@) == map_members(*map),
{
    map.iter().map(|(k, v)| (k.clone(), v.clone())).collect()
}

/// The content of an optional owned value.
pub open spec fn spec_owned_view(value: Option<Json>) -> Option<JsonView> {
    match value {
        Some(j) => Some(j@),
        None => None,
    }
}

/// Reads one JSON document from `bytes`; `None` where the text is not JSON.
pub fn parse_json(bytes: &[u8]) -> (r: Option<Json>)
    ensures
        spec_owned_view(r) == json_document(bytes@),
{
    match read_value(bytes) {
        Ok(value) => Some(tree_of(&value)),
        Err(_) => None,
    }
}

} // verus!
