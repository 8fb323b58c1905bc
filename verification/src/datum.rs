//! The protocol's value type and its two-way conversion.

use vstd::prelude::*;
use crate::json::Json;
use crate::number::Number;
use crate::text::{push_quoted, quoted};
use crate::value::{
    distinct_keys, entries_text, entry_text, has_match, items_text, object_text, Field, Value,
};

verus! {

/// A value of the database: what a query carries as a literal and what a
/// reply holds as a result. An object holds its entries in the order in
/// which they are written; the order means nothing to the database, and
/// an object is meant to hold no key twice (`has_unique_keys`). `==`
/// compares entry by entry, in order; to compare objects as mappings use
/// `same_value`.
#[derive(Debug, PartialEq)]
pub enum Datum {
    Null,
    Bool(bool),
    String(String),
    Number(Number),
    Array(Vec<Datum>),
    Object(Vec<Pair>),
}

/// One entry of an object, and one named option of a query term.
#[derive(Debug, PartialEq)]
pub struct Pair {
    pub key: String,
    pub value: Datum,
}

impl View for Datum {
    type V = Value;

    open spec fn view(&self) -> Value
        decreases self,
    {
        match self {
            Datum::Null => Value::Null,
            Datum::Bool(b) => Value::Bool(*b),
            Datum::Number(n) => Value::Number(n@),
            Datum::String(s) => Value::String(s@),
            Datum::Array(items) => Value::Array(
                Seq::new(
                    items@.len(),
                    |i: int|
                        if 0 <= i < items@.len() {
                            items@[i].view()
                        } else {
                            Value::Null
                        },
                ),
            ),
            Datum::Object(entries) => Value::Object(
                Seq::new(
                    entries@.len(),
                    |i: int|
                        if 0 <= i < entries@.len() {
                            Field { key: entries@[i].key@, value: entries@[i].value.view() }
                        } else {
                            Field { key: Seq::empty(), value: Value::Null }
                        },
                ),
            ),
        }
    }
}

impl View for Pair {
    type V = Field;

    open spec fn view(&self) -> Field {
        Field { key: self.key@, value: self.value@ }
    }
}

/// The entries of a list of pairs as the model holds them.
pub open spec fn fields_of(entries: Seq<Pair>) -> Seq<Field> {
    Seq::new(entries.len(), |i: int| entries[i]@)
}

impl Clone for Datum {
    fn clone(&self) -> (r: Self)
        ensures
            r@ == self@,
        decreases self,
    {
        match self {
            Datum::Null => Datum::Null,
            Datum::Bool(b) => Datum::Bool(*b),
            Datum::String(s) => Datum::String(s.clone()),
            Datum::Number(n) => Datum::Number(n.clone()),
            Datum::Array(items) => {
                let mut copy: Vec<Datum> = Vec::new();
                let mut i: usize = 0;
                while i < items.len()
                    invariant
                        i <= items@.len(),
                        copy@.len() == i,
                        self is Array,
                        items == self->Array_0,
                        forall|j: int| 0 <= j < i ==> (#[trigger] copy@[j])@ == items@[j]@,
                    decreases items.len() - i,
                {
                    copy.push(items[i].clone());
                    i += 1;
                }
                let r = Datum::Array(copy);
                assert(r@->Array_0 =~= self@->Array_0);
                r
            },
            Datum::Object(entries) => {
                let mut copy: Vec<Pair> = Vec::new();
                let mut i: usize = 0;
                while i < entries.len()
                    invariant
                        i <= entries@.len(),
                        copy@.len() == i,
                        self is Object,
                        entries == self->Object_0,
                        forall|j: int| 0 <= j < i ==> (#[trigger] copy@[j])@ == entries@[j]@,
                    decreases entries.len() - i,
                {
                    copy.push(Pair { key: entries[i].key.clone(), value: entries[i].value.clone() });
                    i += 1;
                }
                let r = Datum::Object(copy);
                assert(r@->Object_0 =~= self@->Object_0);
                r
            },
        }
    }
}

impl Clone for Pair {
    fn clone(&self) -> (r: Self)
        ensures
            r@ == self@,
    {
        Pair { key: self.key.clone(), value: self.value.clone() }
    }
}

impl Datum {
    /// Decodes a parsed JSON document: the same value, shape for shape.
    pub fn from_json(json: Json) -> (datum: Datum)
        ensures
            datum@ == json@,
    {
        Datum::decode(&json)
    }

    /// Decodes a parsed JSON document that the caller keeps.
    pub fn decode(json: &Json) -> (datum: Datum)
        ensures
            datum@ == json@,
        decreases json,
    {
        match json {
            Json::Null => Datum::Null,
            Json::Boolean(b) => Datum::Bool(*b),
            Json::String(s) => Datum::String(s.clone()),
            Json::Number(n) => Datum::Number(n.clone()),
            Json::Array(items) => {
                let mut decoded: Vec<Datum> = Vec::new();
                let mut i: usize = 0;
                while i < items.len()
                    invariant
                        i <= items@.len(),
                        decoded@.len() == i,
                        json is Array,
                        items == json->Array_0,
                        forall|j: int| 0 <= j < i ==> (#[trigger] decoded@[j])@ == items@[j]@,
                    decreases items.len() - i,
                {
                    decoded.push(Datum::decode(&items[i]));
                    i += 1;
                }
                let datum = Datum::Array(decoded);
                assert(datum@->Array_0 =~= json@->Array_0);
                datum
            },
            Json::Object(entries) => {
                let mut decoded: Vec<Pair> = Vec::new();
                let mut i: usize = 0;
                while i < entries.len()
                    invariant
                        i <= entries@.len(),
                        decoded@.len() == i,
                        json is Object,
                        entries == json->Object_0,
                        forall|j: int|
                            0 <= j < i ==> (#[trigger] decoded@[j])@ == (Field {
                                key: entries@[j].key@,
                                value: entries@[j].value@,
                            }),
                    decreases entries.len() - i,
                {
                    decoded.push(
                        Pair { key: entries[i].key.clone(), value: Datum::decode(&entries[i].value) },
                    );
                    i += 1;
                }
                let datum = Datum::Object(decoded);
                assert(datum@->Object_0 =~= json@->Object_0);
                datum
            },
        }
    }

    /// Whether no object in the value holds a key twice: whether every
    /// object in it is a mapping.
    pub fn has_unique_keys(&self) -> (ok: bool)
        ensures
            ok == self@.keys_unique(),
        decreases self, 1nat,
    {
        match self {
            Datum::Array(items) => {
                let ghost views = self@->Array_0;
                let mut i: usize = 0;
                while i < items.len()
                    invariant
                        i <= items@.len(),
                        self is Array,
                        items == self->Array_0,
                        views == self@->Array_0,
                        forall|j: int| 0 <= j < i ==> (#[trigger] views[j]).keys_unique(),
                    decreases items.len() - i,
                {
                    assert(views[i as int] == items@[i as int]@);
                    if !items[i].has_unique_keys() {
                        return false;
                    }
                    i += 1;
                }
                true
            },
            Datum::Object(entries) => {
                assert(self@->Object_0 =~= fields_of(entries@));
                pairs_have_unique_keys(entries)
            },
            _ => true,
        }
    }

    /// Whether two values are the same, whatever the order in which their
    /// objects hold their entries.
    pub fn same_value(&self, other: &Datum) -> (same: bool)
        ensures
            same == self@.same(other@),
        decreases self,
    {
        match self {
            Datum::Null => match other {
                Datum::Null => true,
                _ => false,
            },
            Datum::Bool(a) => match other {
                Datum::Bool(b) => *a == *b,
                _ => false,
            },
            Datum::String(a) => match other {
                Datum::String(b) => *a == *b,
                _ => false,
            },
            Datum::Number(a) => match other {
                Datum::Number(b) => a.same(b),
                _ => false,
            },
            Datum::Array(items) => match other {
                Datum::Array(others) => {
                    if items.len() != others.len() {
                        return false;
                    }
                    let ghost views = self@->Array_0;
                    let ghost other_views = other@->Array_0;
                    let mut i: usize = 0;
                    while i < items.len()
                        invariant
                            i <= items@.len(),
                            items@.len() == others@.len(),
                            self is Array,
                            items == self->Array_0,
                            other is Array,
                            others == other->Array_0,
                            views == self@->Array_0,
                            other_views == other@->Array_0,
                            forall|j: int|
                                0 <= j < i ==> (#[trigger] views[j]).same(other_views[j]),
                        decreases items.len() - i,
                    {
                        assert(views[i as int] == items@[i as int]@);
                        assert(other_views[i as int] == others@[i as int]@);
                        if !items[i].same_value(&others[i]) {
                            return false;
                        }
                        i += 1;
                    }
                    true
                },
                _ => false,
            },
            Datum::Object(entries) => match other {
                Datum::Object(others) => {
                    if entries.len() != others.len() {
                        return false;
                    }
                    let ghost views = self@->Object_0;
                    let ghost other_views = other@->Object_0;
                    let mut i: usize = 0;
                    while i < entries.len()
                        invariant
                            i <= entries@.len(),
                            entries@.len() == others@.len(),
                            self is Object,
                            entries == self->Object_0,
                            other is Object,
                            others == other->Object_0,
                            views == self@->Object_0,
                            other_views == other@->Object_0,
                            forall|j: int| 0 <= j < i ==> has_match(#[trigger] views[j], other_views),
                        decreases entries.len() - i,
                    {
                        assert(views[i as int] == entries@[i as int]@);
                        let mut found: bool = false;
                        let mut j: usize = 0;
                        while j < others.len() && !found
                            invariant
                                j <= others@.len(),
                                i < entries@.len(),
                                self is Object,
                                entries == self->Object_0,
                                other is Object,
                                others == other->Object_0,
                                views == self@->Object_0,
                                other_views == other@->Object_0,
                                views[i as int] == entries@[i as int]@,
                                found ==> has_match(views[i as int], other_views),
                                !found ==> forall|m: int|
                                    0 <= m < j ==> !(views[i as int].key == (
                                    #[trigger] other_views[m]).key && views[i as int].value.same(
                                        other_views[m].value,
                                    )),
                            decreases others.len() - j + (if found { 0int } else { 1int }),
                        {
                            assert(other_views[j as int] == others@[j as int]@);
                            if entries[i].key == others[j].key && entries[i].value.same_value(
                                &others[j].value,
                            ) {
                                found = true;
                            } else {
                                j += 1;
                            }
                        }
                        if !found {
                            assert(!has_match(views[i as int], other_views));
                            return false;
                        }
                        i += 1;
                    }
                    true
                },
                _ => false,
            },
        }
    }

    /// The wire text of the value: its JSON literal, every string escaped.
    /// An array is written as a JSON array, which reads back as the same
    /// array; in a query the server takes a bare array for a term, so a
    /// query that carries an array literal wraps it in `MAKE_ARRAY`.
    pub fn serialize(&self) -> (text: String)
        ensures
            text@ == self@.wire_text(),
    {
        let mut text = String::new();
        self.write(&mut text);
        text
    }

    /// Appends the wire text of the value.
    pub fn write(&self, out: &mut String)
        ensures
            final(out)@ == old(out)@ + self@.wire_text(),
        decreases self, 1nat,
    {
        let ghost before = out@;
        match self {
            Datum::Null => out.append("null"),
            Datum::Bool(b) => {
                if *b {
                    out.append("true")
                } else {
                    out.append("false")
                }
            },
            Datum::String(s) => push_quoted(out, s.as_str()),
            Datum::Number(n) => out.append(n.as_str()),
            Datum::Array(items) => {
                let ghost views = self@->Array_0;
                out.push('[');
                let mut i: usize = 0;
                while i < items.len()
                    invariant
                        i <= items@.len(),
                        self is Array,
                        items == self->Array_0,
                        views == self@->Array_0,
                        out@ == before + seq!['['] + items_text(views, i as nat),
                    decreases items.len() - i,
                {
                    if i > 0 {
                        out.push(',');
                    }
                    items[i].write(out);
                    assert(views[i as int] == items@[i as int]@);
                    assert(out@ =~= before + seq!['['] + items_text(views, (i + 1) as nat));
                    i += 1;
                }
                out.push(']');
                assert(out@ =~= before + self@.wire_text());
            },
            Datum::Object(entries) => {
                assert(self@->Object_0 =~= fields_of(entries@));
                write_pairs(entries, out);
            },
        }
    }
}

/// Whether the entries hold no key twice, and no value of theirs does.
pub fn pairs_have_unique_keys(entries: &Vec<Pair>) -> (ok: bool)
    ensures
        ok == Value::Object(fields_of(entries@)).keys_unique(),
    decreases entries, 0nat,
{
    let ghost views = fields_of(entries@);
    let mut i: usize = 0;
    while i < entries.len()
        invariant
            i <= entries@.len(),
            views == fields_of(entries@),
            forall|j: int| 0 <= j < i ==> (#[trigger] views[j]).value.keys_unique(),
            forall|j: int, k: int| 0 <= j < k < i ==> views[j].key != views[k].key,
        decreases entries.len() - i,
    {
        assert(views[i as int] == entries@[i as int]@);
        if !entries[i].value.has_unique_keys() {
            return false;
        }
        let mut j: usize = 0;
        while j < i
            invariant
                j <= i < entries@.len(),
                views == fields_of(entries@),
                forall|m: int| 0 <= m < j ==> views[m].key != views[i as int].key,
            decreases i - j,
        {
            if entries[j].key == entries[i].key {
                assert(views[j as int].key == views[i as int].key);
                assert(!distinct_keys(views));
                return false;
            }
            j += 1;
        }
        i += 1;
    }
    true
}

/// Appends an object with these entries, in their order.
pub fn write_pairs(entries: &Vec<Pair>, out: &mut String)
    ensures
        final(out)@ == old(out)@ + object_text(fields_of(entries@)),
    decreases entries, 0nat,
{
    let ghost before = out@;
    let ghost views = fields_of(entries@);
    out.push('{');
    let mut i: usize = 0;
    while i < entries.len()
        invariant
            i <= entries@.len(),
            views == fields_of(entries@),
            out@ == before + seq!['{'] + entries_text(views, i as nat),
        decreases entries.len() - i,
    {
        if i > 0 {
            out.push(',');
        }
        push_quoted(out, entries[i].key.as_str());
        out.push(':');
        entries[i].value.write(out);
        assert(entry_text(views, i as int) == quoted(entries@[i as int].key@) + seq![':']
            + entries@[i as int].value@.wire_text());
        assert(out@ =~= before + seq!['{'] + entries_text(views, (i + 1) as nat));
        i += 1;
    }
    out.push('}');
    assert(out@ =~= before + object_text(views));
}

} // verus!
