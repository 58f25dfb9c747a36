//! JSON documents as plain values.
//!
//! Reading JSON text is the business of `serde_json`; this module holds the
//! tree that comes out of it in a type of the library, so that the protocols
//! can be read off it field by field.

use vstd::prelude::*;

verus! {

/// A JSON document.
#[derive(Debug, PartialEq, Eq)]
pub enum Json {
    Null,
    Bool(bool),
    /// A number; the value is present when it is a non-negative integer that
    /// fits 64 bits, which is all the protocols read.
    Number(Option<u64>),
    Text(String),
    List(Vec<Json>),
    /// An object: its members in order. Reading a member by its name takes
    /// the first that bears it.
    Record(Vec<(String, Json)>),
}

/// Mathematical value of a [`Json`] document.
pub enum JsonView {
    Null,
    Bool(bool),
    Number(Option<u64>),
    Text(Seq<char>),
    List(Seq<JsonView>),
    Record(Seq<(Seq<char>, JsonView)>),
}

impl View for Json {
    type V = JsonView;

    open spec fn view(&self) -> JsonView
        decreases self,
    {
        match self {
            Json::Null => JsonView::Null,
            Json::Bool(b) => JsonView::Bool(*b),
            Json::Number(n) => JsonView::Number(*n),
            Json::Text(s) => JsonView::Text(s@),
            Json::List(items) => JsonView::List(
                Seq::new(
                    items@.len(),
                    |i: int|
                        if 0 <= i < items@.len() {
                            items@[i].view()
                        } else {
                            JsonView::Null
                        },
                ),
            ),
            Json::Record(members) => JsonView::Record(
                Seq::new(
                    members@.len(),
                    |i: int|
                        if 0 <= i < members@.len() {
                            (members@[i].0@, members@[i].1.view())
                        } else {
                            (Seq::empty(), JsonView::Null)
                        },
                ),
            ),
        }
    }
}

/// The values of a list's items, in order.
pub open spec fn items_view(items: Seq<Json>) -> Seq<JsonView> {
    Seq::new(items.len(), |i: int| items[i]@)
}

/// The values of an object's members, in order.
pub open spec fn members_view(members: Seq<(String, Json)>) -> Seq<(Seq<char>, JsonView)> {
    Seq::new(members.len(), |i: int| (members[i].0@, members[i].1@))
}

/// The value of a list is the list of its items' values.
pub proof fn lemma_list_view(items: Vec<Json>)
    ensures
        Json::List(items)@ == JsonView::List(items_view(items@)),
{
    reveal_with_fuel(<Json as View>::view, 2);
    let value = Json::List(items)@;
    assert(value->List_0 =~= items_view(items@));
}

/// The value of an object is the list of its members' values.
pub proof fn lemma_record_view(members: Vec<(String, Json)>)
    ensures
        Json::Record(members)@ == JsonView::Record(members_view(members@)),
{
    reveal_with_fuel(<Json as View>::view, 2);
    let value = Json::Record(members)@;
    assert(value->Record_0 =~= members_view(members@));
}

/// The first member of an object that bears `name`, if any.
pub open spec fn member_of(members: Seq<(Seq<char>, JsonView)>, name: Seq<char>) -> Option<
    JsonView,
>
    decreases members.len(),
{
    if members.len() == 0 {
        None
    } else if members[0].0 == name {
        Some(members[0].1)
    } else {
        member_of(members.skip(1), name)
    }
}

/// Finds the first member of an object that bears `name`.
pub fn member<'a>(members: &'a Vec<(String, Json)>, name: &str) -> (found: Option<&'a Json>)
    ensures
        found is Some <==> member_of(members_view(members@), name@) is Some,
        found matches Some(json) ==> json@ == member_of(members_view(members@), name@)->Some_0,
{
    let wanted: String = name.to_owned();
    let ghost all = members_view(members@);
    let mut i: usize = 0;
    proof {
        assert(all.skip(0) == all);
    }
    while i < members.len()
        invariant
            i <= members.len(),
            all == members_view(members@),
            wanted@ == name@,
            member_of(all, name@) == member_of(all.skip(i as int), name@),
        decreases members.len() - i,
    {
        proof {
            assert(all.skip(i as int).skip(1) == all.skip(i as int + 1));
        }
        if members[i].0 == wanted {
            return Some(&members[i].1);
        }
        i += 1;
    }
    None
}

/// The document that a JSON text holds, or `None` where the bytes are no one
/// JSON text: what `serde_json` reads from them.
pub uninterp spec fn json_of_bytes(bytes: Seq<u8>) -> Option<JsonView>;

/// The document that a `serde_json` value stands for.
pub uninterp spec fn value_model(value: serde_json::Value) -> JsonView;

/// A JSON string literal for `text`: the text between double quotes, escaped
/// as `serde_json` escapes it.
pub uninterp spec fn quoted(text: Seq<char>) -> Seq<char>;

/// `serde_json::Value`, carried from the reader to [`lower`] and not looked
/// into.
#[verifier::external_type_specification]
#[verifier::external_body]
pub struct ExValue(serde_json::Value);

/// `serde_json::Error`, which says why a text was refused and is dropped.
#[verifier::external_type_specification]
#[verifier::external_body]
pub struct ExJsonError(serde_json::Error);

/// `serde_json::from_slice` at the type `serde_json::Value`. It returns a value
/// exactly for the inputs that are one JSON text, and which value is a matter of
/// the bytes alone; the contract gives that value the name [`json_of_bytes`].
#[verifier::external_body]
fn read_value(bytes: &[u8]) -> (value: Result<serde_json::Value, serde_json::Error>)
    ensures
        value is Ok <==> json_of_bytes(bytes@) is Some,
        value matches Ok(v) ==> value_model(v) == json_of_bytes(bytes@)->Some_0,
{
    serde_json::from_slice::<serde_json::Value>(bytes)
}

/// Copies a `serde_json::Value` into a [`Json`], variant by variant. A number
/// goes through `serde_json::Number::as_u64`; the members of an object come in
/// the order in which `serde_json::Map` walks them.
#[verifier::external_body]
fn lower(value: &serde_json::Value) -> (json: Json)
    ensures
        json@ == value_model(*value),
{
    match value {
        serde_json::Value::Null => Json::Null,
        serde_json::Value::Bool(b) => Json::Bool(*b),
        serde_json::Value::Number(n) => Json::Number(n.as_u64()),
        serde_json::Value::String(s) => Json::Text(s.clone()),
        serde_json::Value::Array(a) => Json::List(a.iter().map(lower).collect()),
        serde_json::Value::Object(o) => Json::Record(
            o.iter().map(|(k, v)| (k.clone(), lower(v))).collect(),
        ),
    }
}

/// `serde_json::to_string` on a string slice: the slice as a JSON string
/// literal. Writing a string into memory does not fail.
#[verifier::external_body]
pub(crate) fn quote(text: &str) -> (literal: String)
    ensures
        literal@ == quoted(text@),
{
    serde_json::to_string(text).unwrap_or_default()
}

/// Reads one JSON text.
///
/// Returns the document when `bytes` is one JSON text and `None` otherwise.
pub fn parse(bytes: &[u8]) -> (json: Option<Json>)
    ensures
        json is Some <==> json_of_bytes(bytes@) is Some,
        json matches Some(j) ==> j@ == json_of_bytes(bytes@)->Some_0,
{
    match read_value(bytes) {
        Ok(value) => Some(lower(&value)),
        Err(_) => None,
    }
}

} // verus!
