//! A generic JSON value, as a JSON parser hands it over.

use vstd::prelude::*;
use crate::number::Number;
use crate::value::{Field, Value};

verus! {

/// A parsed JSON document. An object holds its entries in a list; a
/// document that a parser produced holds no key twice in one object.
#[derive(Debug, PartialEq)]
pub enum Json {
    Null,
    Boolean(bool),
    Number(Number),
    String(String),
    Array(Vec<Json>),
    Object(Vec<Member>),
}

/// One entry of a JSON object.
#[derive(Debug, PartialEq)]
pub struct Member {
    pub key: String,
    pub value: Json,
}

impl View for Json {
    type V = Value;

    open spec fn view(&self) -> Value
        decreases self,
    {
        match self {
            Json::Null => Value::Null,
            Json::Boolean(b) => Value::Bool(*b),
            Json::Number(n) => Value::Number(n@),
            Json::String(s) => Value::String(s@),
            Json::Array(items) => Value::Array(
                Seq::new(
                    items@.len(),
                    |i: int|
                        if 0 <= i < items@.len() {
                            items@[i].view()
                        } else {
                            Value::Null
                        },
                ),
            ),
            Json::Object(entries) => Value::Object(
                Seq::new(
                    entries@.len(),
                    |i: int|
                        if 0 <= i < entries@.len() {
                            Field { key: entries@[i].key@, value: entries@[i].value.view() }
                        } else {
                            Field { key: Seq::empty(), value: Value::Null }
                        },
                ),
            ),
        }
    }
}

} // verus!
