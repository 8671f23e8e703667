//! Structured documents, the form in which runs and reports leave the
//! process.

use vstd::prelude::*;
use crate::pairs::{lemma_pairs_map_keys, lemma_pairs_map_last, lookup};

verus! {

/// What a document holds, as mathematical values.
pub enum JsonView {
    Null,
    Number(u64),
    Text(Seq<char>),
    Array(Seq<JsonView>),
    Object(Seq<(Seq<char>, JsonView)>),
}

/// A structured document: the values that a report is made of. An object
/// is a list of named fields; where a name occurs twice, the later field
/// counts.
#[derive(Debug)]
pub enum Json {
    Null,
    Number(u64),
    Text(String),
    Array(Vec<Json>),
    Object(Vec<(String, Json)>),
}

/// What `doc` holds, as mathematical values.
pub open spec fn json_view(doc: Json) -> JsonView
    decreases doc,
{
    match doc {
        Json::Null => JsonView::Null,
        Json::Number(n) => JsonView::Number(n),
        Json::Text(text) => JsonView::Text(text@),
        Json::Array(items) => JsonView::Array(
            Seq::new(
                items@.len(),
                |i: int|
                    if 0 <= i < items@.len() {
                        json_view(items@[i])
                    } else {
                        JsonView::Null
                    },
            ),
        ),
        Json::Object(fields) => JsonView::Object(
            Seq::new(
                fields@.len(),
                |i: int|
                    if 0 <= i < fields@.len() {
                        (fields@[i].0@, json_view(fields@[i].1))
                    } else {
                        (Seq::empty(), JsonView::Null)
                    },
            ),
        ),
    }
}

impl View for Json {
    type V = JsonView;

    open spec fn view(&self) -> JsonView {
        json_view(*self)
    }
}

/// The items of an array, as mathematical values.
pub open spec fn items_view(items: Seq<Json>) -> Seq<JsonView> {
    items.map_values(|item: Json| item@)
}

/// The fields of an object, as mathematical values.
pub open spec fn fields_view(fields: Seq<(String, Json)>) -> Seq<(Seq<char>, JsonView)> {
    fields.map_values(|field: (String, Json)| (field.0@, field.1@))
}

/// An array holds its items.
pub proof fn lemma_array_view(items: Vec<Json>)
    ensures
        Json::Array(items)@ == JsonView::Array(items_view(items@)),
{
    assert(Json::Array(items)@->Array_0 =~= items_view(items@));
}

/// An object holds its fields.
pub proof fn lemma_object_view(fields: Vec<(String, Json)>)
    ensures
        Json::Object(fields)@ == JsonView::Object(fields_view(fields@)),
{
    assert(Json::Object(fields)@->Object_0 =~= fields_view(fields@));
}

/// The field `name` among `fields`, if there is one.
pub fn field<'b>(fields: &'b Vec<(String, Json)>, name: &str) -> (found: Option<&'b Json>)
    ensures
        match found {
            Some(doc) => lookup(fields_view(fields@), name@) == Some(doc@),
            None => lookup(fields_view(fields@), name@) is None,
        },
{
    let key = name.to_owned();
    let mut at = fields.len();
    while at > 0
        invariant
            key@ == name@,
            at <= fields@.len(),
            forall|j: int| at <= j < fields@.len() ==> (#[trigger] fields_view(fields@)[j]).0 != name@,
        decreases at,
    {
        at -= 1;
        if fields[at].0 == key {
            proof {
                lemma_pairs_map_last(fields_view(fields@), at as int);
            }
            return Some(&fields[at].1);
        }
    }
    proof {
        lemma_pairs_map_keys(fields_view(fields@), name@);
    }
    None
}

} // verus!
