//! The mathematical model of a JSON value and of its wire text.

use vstd::prelude::*;
use crate::text::quoted;

verus! {

/// A JSON value as a mathematical object. Both the generic JSON tree and
/// the protocol's own value type view into it.
pub enum Value {
    Null,
    Bool(bool),
    /// A number, held as its decimal literal.
    Number(Seq<char>),
    String(Seq<char>),
    Array(Seq<Value>),
    /// The entries of an object, in the order in which they are written.
    Object(Seq<Field>),
}

/// One entry of an object: a key and the value under it.
pub struct Field {
    pub key: Seq<char>,
    pub value: Value,
}

impl Value {
    /// The wire text of a value: the JSON literal, strings quoted and
    /// escaped, entries and items separated by commas, no white space.
    pub open spec fn wire_text(self) -> Seq<char>
        decreases self, 0nat,
    {
        match self {
            Value::Null => "null"@,
            Value::Bool(b) => if b { "true"@ } else { "false"@ },
            Value::Number(literal) => literal,
            Value::String(s) => quoted(s),
            Value::Array(items) => seq!['['] + items_text(items, items.len()) + seq![']'],
            Value::Object(entries) => object_text(entries),
        }
    }

    /// Whether two values are the same where an object is a mapping: the
    /// order of the entries of an object means nothing, that of the items
    /// of an array does.
    pub open spec fn same(self, other: Value) -> bool
        decreases self, 0nat,
    {
        match self {
            Value::Array(items) => other is Array && items.len() == other->Array_0.len()
                && forall|i: int|
                0 <= i < items.len() ==> (#[trigger] items[i]).same(other->Array_0[i]),
            Value::Object(entries) => other is Object && entries.len() == other->Object_0.len()
                && forall|i: int|
                0 <= i < entries.len() ==> has_match(#[trigger] entries[i], other->Object_0),
            _ => self == other,
        }
    }

    /// No object in the value holds a key twice.
    pub open spec fn keys_unique(self) -> bool
        decreases self,
    {
        match self {
            Value::Array(items) => forall|i: int| 0 <= i < items.len() ==> (#[trigger] items[i]).keys_unique(),
            Value::Object(entries) => {
                &&& distinct_keys(entries)
                &&& forall|i: int| 0 <= i < entries.len() ==> (#[trigger] entries[i]).value.keys_unique()
            },
            _ => true,
        }
    }
}

/// Whether `others` holds an entry with the key of `entry` and the same
/// value.
pub open spec fn has_match(entry: Field, others: Seq<Field>) -> bool
    decreases entry, 1nat,
{
    exists|j: int|
        0 <= j < others.len() && entry.key == (#[trigger] others[j]).key && entry.value.same(
            others[j].value,
        )
}

/// Every value is the same as itself.
pub proof fn lemma_same_reflexive(v: Value)
    ensures
        v.same(v),
    decreases v,
{
    match v {
        Value::Array(items) => {
            assert forall|i: int| 0 <= i < items.len() implies (#[trigger] items[i]).same(
                items[i],
            ) by {
                lemma_same_reflexive(items[i]);
            }
        },
        Value::Object(entries) => {
            assert forall|i: int| 0 <= i < entries.len() implies has_match(
                #[trigger] entries[i],
                entries,
            ) by {
                lemma_same_reflexive(entries[i].value);
            }
        },
        _ => {},
    }
}

/// No two entries carry the same key.
pub open spec fn distinct_keys(entries: Seq<Field>) -> bool {
    forall|i: int, j: int| 0 <= i < j < entries.len() ==> entries[i].key != entries[j].key
}

/// The wire text of the first `n` items, separated by commas.
pub open spec fn items_text(items: Seq<Value>, n: nat) -> Seq<char>
    decreases items, n,
{
    if n == 0 || n > items.len() {
        Seq::empty()
    } else if n == 1 {
        items[0].wire_text()
    } else {
        items_text(items, (n - 1) as nat) + seq![','] + items[n - 1].wire_text()
    }
}

/// One entry of an object on the wire: the quoted key, a colon, the value.
pub open spec fn entry_text(entries: Seq<Field>, i: int) -> Seq<char>
    recommends
        0 <= i < entries.len(),
    decreases entries, 0nat, 0nat,
{
    if 0 <= i < entries.len() {
        quoted(entries[i].key) + seq![':'] + entries[i].value.wire_text()
    } else {
        Seq::empty()
    }
}

/// The wire text of the first `n` entries, separated by commas.
pub open spec fn entries_text(entries: Seq<Field>, n: nat) -> Seq<char>
    decreases entries, 1nat, n,
{
    if n == 0 || n > entries.len() {
        Seq::empty()
    } else if n == 1 {
        entry_text(entries, 0)
    } else {
        entries_text(entries, (n - 1) as nat) + seq![','] + entry_text(entries, n - 1)
    }
}

/// An object on the wire: its entries between braces.
pub open spec fn object_text(entries: Seq<Field>) -> Seq<char>
    decreases entries, 2nat, 0nat,
{
    seq!['{'] + entries_text(entries, entries.len()) + seq!['}']
}

} // verus!
