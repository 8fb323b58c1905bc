//! The envelope of a reply: its status, its results and its backtrace.

use vstd::prelude::*;
use crate::datum::Datum;
use crate::json::{Json, Member};
use crate::number::floor_of;
use crate::ql2::Response_ResponseType;
use crate::value::{Field, Value};

verus! {

/// What is said of a reply that cannot be read: a plain text.
pub type ResponseParseError = String;

/// A reply as a mathematical object.
pub struct Envelope {
    pub response_type: Response_ResponseType,
    pub result: Seq<Value>,
    pub backtrace: Option<Seq<Seq<char>>>,
}

/// A reply of the database to one query.
#[derive(Debug)]
pub struct RethinkResponse {
    pub response_type: Response_ResponseType,
    pub result: Vec<Datum>,
    pub backtrace: Option<Vec<String>>,
}

/// The values of a list.
pub open spec fn values_of(items: Seq<Datum>) -> Seq<Value> {
    Seq::new(items.len(), |i: int| items[i]@)
}

/// The texts of a list.
pub open spec fn texts_of(items: Seq<String>) -> Seq<Seq<char>> {
    Seq::new(items.len(), |i: int| items[i]@)
}

impl View for RethinkResponse {
    type V = Envelope;

    open spec fn view(&self) -> Envelope {
        Envelope {
            response_type: self.response_type,
            result: values_of(self.result@),
            backtrace: match self.backtrace {
                Some(frames) => Some(texts_of(frames@)),
                None => None,
            },
        }
    }
}

/// Where the first entry under `key` stands, at or behind `from`.
pub open spec fn position(entries: Seq<Field>, key: Seq<char>, from: int) -> Option<int>
    decreases entries.len() - from,
{
    if from < 0 || from >= entries.len() {
        None
    } else if entries[from].key == key {
        Some(from)
    } else {
        position(entries, key, from + 1)
    }
}

/// The value of the first entry under `key`.
pub open spec fn lookup(entries: Seq<Field>, key: Seq<char>) -> Option<Value> {
    match position(entries, key, 0) {
        Some(i) => Some(entries[i].value),
        None => None,
    }
}

/// What is said of a document that is no object.
pub open spec fn not_an_object() -> Seq<char> {
    "Parse error: expected the rethink json response to be an object"@
}

/// What is said of a reply without a number under `t`.
pub open spec fn type_not_numeric() -> Seq<char> {
    "Parse error: rethink response type was non-numeric"@
}

/// What is said of a number under `t` that is no status code.
pub open spec fn type_unrecognized() -> Seq<char> {
    "Parse error: unrecognized rethink response type"@
}

/// What is said of a reply with something other than an array under `r`.
pub open spec fn result_not_an_array() -> Seq<char> {
    "Parse error: \"r\" field of rethink response should be an array"@
}

/// What is said of a reply with nothing under `r`.
pub open spec fn result_missing() -> Seq<char> {
    "Parse error: rethink response didn't contain a response field"@
}

/// The status under `t`: a number, rounded down, that is a status code.
pub open spec fn status_of(field: Option<Value>) -> Result<Response_ResponseType, Seq<char>> {
    match field {
        Some(Value::Number(literal)) => match Response_ResponseType::of_code(floor_of(literal)) {
            Some(status) => Ok(status),
            None => Err(type_unrecognized()),
        },
        _ => Err(type_not_numeric()),
    }
}

/// The results under `r`: the items of an array.
pub open spec fn results_of(field: Option<Value>) -> Result<Seq<Value>, Seq<char>> {
    match field {
        Some(Value::Array(items)) => Ok(items),
        Some(_) => Err(result_not_an_array()),
        None => Err(result_missing()),
    }
}

/// One line of a backtrace: a string as it is, anything else as the
/// empty text.
pub open spec fn frame_of(item: Value) -> Seq<char> {
    match item {
        Value::String(s) => s,
        _ => Seq::empty(),
    }
}

/// The backtrace under `b`: the lines of an array, and none where there
/// is no array.
pub open spec fn backtrace_of(field: Option<Value>) -> Option<Seq<Seq<char>>> {
    match field {
        Some(Value::Array(items)) => Some(Seq::new(items.len(), |i: int| frame_of(items[i]))),
        _ => None,
    }
}

/// The reply that a JSON document holds, or what is said of a document
/// that holds none. The status is judged first, then the results.
pub open spec fn envelope_of(document: Value) -> Result<Envelope, Seq<char>> {
    match document {
        Value::Object(entries) => match status_of(lookup(entries, "t"@)) {
            Err(e) => Err(e),
            Ok(response_type) => match results_of(lookup(entries, "r"@)) {
                Err(e) => Err(e),
                Ok(result) => Ok(
                    Envelope {
                        response_type,
                        result,
                        backtrace: backtrace_of(lookup(entries, "b"@)),
                    },
                ),
            },
        },
        _ => Err(not_an_object()),
    }
}

/// The fields of the entries of a JSON object.
pub open spec fn member_fields(entries: Seq<Member>) -> Seq<Field> {
    Seq::new(entries.len(), |i: int| Field { key: entries[i].key@, value: entries[i].value@ })
}

fn find<'a>(entries: &'a Vec<Member>, key: &str) -> (found: Option<&'a Json>)
    ensures
        match found {
            Some(json) => lookup(member_fields(entries@), key@) == Some(json@),
            None => lookup(member_fields(entries@), key@) is None,
        },
{
    let wanted = String::from_str(key);
    let ghost fields = member_fields(entries@);
    let mut i: usize = 0;
    while i < entries.len()
        invariant
            i <= entries@.len(),
            wanted@ == key@,
            fields == member_fields(entries@),
            position(fields, key@, 0) == position(fields, key@, i as int),
        decreases entries.len() - i,
    {
        if entries[i].key == wanted {
            return Some(&entries[i].value);
        }
        i += 1;
    }
    None
}

impl RethinkResponse {
    /// Reads a reply from the JSON document that carried it.
    pub fn from_json(json: Json) -> (r: Result<RethinkResponse, ResponseParseError>)
        ensures
            match r {
                Ok(response) => envelope_of(json@) == Ok::<Envelope, Seq<char>>(response@),
                Err(e) => envelope_of(json@) == Err::<Envelope, Seq<char>>(e@),
            },
    {
        let entries = match &json {
            Json::Object(entries) => entries,
            _ => {
                return Err(
                    String::from_str(
                        "Parse error: expected the rethink json response to be an object",
                    ),
                );
            },
        };
        assert(json@->Object_0 =~= member_fields(entries@));
        let response_type = match find(entries, "t") {
            Some(Json::Number(n)) => match Response_ResponseType::from_i32(n.floor()) {
                Some(response_type) => response_type,
                None => {
                    return Err(String::from_str("Parse error: unrecognized rethink response type"));
                },
            },
            _ => {
                return Err(String::from_str("Parse error: rethink response type was non-numeric"));
            },
        };
        let result = match find(entries, "r") {
            Some(Json::Array(items)) => {
                let mut result: Vec<Datum> = Vec::new();
                let mut i: usize = 0;
                while i < items.len()
                    invariant
                        i <= items@.len(),
                        result@.len() == i,
                        forall|j: int| 0 <= j < i ==> (#[trigger] result@[j])@ == items@[j]@,
                    decreases items.len() - i,
                {
                    result.push(Datum::decode(&items[i]));
                    i += 1;
                }
                assert(values_of(result@) =~= Json::Array(*items)@->Array_0);
                result
            },
            Some(_) => {
                return Err(
                    String::from_str(
                        "Parse error: \"r\" field of rethink response should be an array",
                    ),
                );
            },
            None => {
                return Err(
                    String::from_str(
                        "Parse error: rethink response didn't contain a response field",
                    ),
                );
            },
        };
        let backtrace = match find(entries, "b") {
            Some(Json::Array(items)) => {
                let mut frames: Vec<String> = Vec::new();
                let mut i: usize = 0;
                while i < items.len()
                    invariant
                        i <= items@.len(),
                        frames@.len() == i,
                        forall|j: int| 0 <= j < i ==> (#[trigger] frames@[j])@ == frame_of(items@[j]@),
                    decreases items.len() - i,
                {
                    let frame = match &items[i] {
                        Json::String(s) => s.clone(),
                        _ => String::new(),
                    };
                    frames.push(frame);
                    i += 1;
                }
                assert(Some(texts_of(frames@)) =~= backtrace_of(Some(Json::Array(*items)@)));
                Some(frames)
            },
            _ => None,
        };
        let response = RethinkResponse { response_type, result, backtrace };
        Ok(response)
    }
}

} // verus!
