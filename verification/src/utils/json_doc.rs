//! JSON documents that this crate builds.
//!
//! A request body is built as a tree of this crate's own, so that what is
//! built can be stated exactly. Values that arrive as JSON from outside, such
//! as a tool's parameter schema, are embedded as they are.

use vstd::prelude::*;

verus! {

/// A JSON document.
#[derive(Debug)]
pub enum Json {
    Null,
    Bool(bool),
    Number(u64),
    String(String),
    Array(Vec<Json>),
    /// The members in the order they were added. Member names are unique.
    Object(Vec<(String, Json)>),
    /// A JSON value taken over as it is.
    Raw(serde_json::Value),
}

/// What a [`Json`] document says, with strings as character sequences.
pub enum JsonView {
    Null,
    Bool(bool),
    Number(u64),
    String(Seq<char>),
    Array(Seq<JsonView>),
    Object(Seq<(Seq<char>, JsonView)>),
    Raw(serde_json::Value),
}

/// The views of the first `upto` items.
pub open spec fn items_view(items: Vec<Json>, upto: nat) -> Seq<JsonView>
    decreases items, upto,
{
    if upto == 0 || upto > items@.len() {
        Seq::empty()
    } else {
        items_view(items, (upto - 1) as nat).push(json_view(items@[upto - 1]))
    }
}

/// The views of the first `upto` members.
pub open spec fn members_view(members: Vec<(String, Json)>, upto: nat) -> Seq<
    (Seq<char>, JsonView),
>
    decreases members, upto,
{
    if upto == 0 || upto > members@.len() {
        Seq::empty()
    } else {
        members_view(members, (upto - 1) as nat).push(
            (members@[upto - 1].0@, json_view(members@[upto - 1].1)),
        )
    }
}

/// What a document says.
pub open spec fn json_view(json: Json) -> JsonView
    decreases json, 0nat,
{
    match json {
        Json::Null => JsonView::Null,
        Json::Bool(b) => JsonView::Bool(b),
        Json::Number(n) => JsonView::Number(n),
        Json::String(s) => JsonView::String(s@),
        Json::Array(items) => JsonView::Array(items_view(items, items@.len())),
        Json::Object(members) => JsonView::Object(members_view(members, members@.len())),
        Json::Raw(value) => JsonView::Raw(value),
    }
}

impl DeepView for Json {
    type V = JsonView;

    open spec fn deep_view(&self) -> JsonView {
        json_view(*self)
    }
}

/// The views of all items are the views of the items, one by one.
pub proof fn lemma_items_view(items: Vec<Json>, upto: nat)
    requires
        upto <= items@.len(),
    ensures
        items_view(items, upto) == items.deep_view().take(upto as int),
    decreases upto,
{
    if upto == 0 {
        assert(items.deep_view().take(0) =~= Seq::<JsonView>::empty());
    } else {
        lemma_items_view(items, (upto - 1) as nat);
        assert(items.deep_view().take(upto as int) =~= items.deep_view().take(upto - 1).push(
            json_view(items@[upto - 1]),
        ));
    }
}

/// The views of all members are the views of the members, one by one.
pub proof fn lemma_members_view(members: Vec<(String, Json)>, upto: nat)
    requires
        upto <= members@.len(),
    ensures
        members_view(members, upto) == members.deep_view().take(upto as int),
    decreases upto,
{
    if upto == 0 {
        assert(members.deep_view().take(0) =~= Seq::<(Seq<char>, JsonView)>::empty());
    } else {
        lemma_members_view(members, (upto - 1) as nat);
        assert(members.deep_view().take(upto as int) =~= members.deep_view().take(
            upto - 1,
        ).push((members@[upto - 1].0@, json_view(members@[upto - 1].1))));
    }
}

/// A JSON string.
pub fn json_string(text: &str) -> (json: Json)
    ensures
        json.deep_view() == JsonView::String(text@),
{
    Json::String(text.to_owned())
}

/// A JSON array of the given items.
pub fn json_array(items: Vec<Json>) -> (json: Json)
    ensures
        json.deep_view() == JsonView::Array(items.deep_view()),
{
    proof {
        lemma_items_view(items, items@.len());
        assert(items.deep_view().take(items@.len() as int) =~= items.deep_view());
    }
    Json::Array(items)
}

/// A JSON object of the given members.
pub fn json_object(members: Vec<(String, Json)>) -> (json: Json)
    ensures
        json.deep_view() == JsonView::Object(members.deep_view()),
{
    proof {
        lemma_members_view(members, members@.len());
        assert(members.deep_view().take(members@.len() as int) =~= members.deep_view());
    }
    Json::Object(members)
}

} // verus!
