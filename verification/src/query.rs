//! The query tree, its builders and its wire text.

use vstd::prelude::*;
use vstd::utf8::encode_utf8;
use crate::connection::{params_text, Connection, SendError};
use crate::datum::{fields_of, pairs_have_unique_keys, write_pairs, Datum, Pair};
use crate::json::Json;
use crate::ql2::{Term_TermType, QUERY_START};
use crate::response::{envelope_of, Envelope, ResponseParseError, RethinkResponse};
use crate::text::{decimal, push_decimal};
use crate::value::{distinct_keys, object_text, Field, Value};
use crate::wire::frame_bytes;

verus! {

/// A query tree as a mathematical object.
pub enum Query {
    /// An operation with its positional arguments and its named options.
    Term { command: Term_TermType, arguments: Seq<Query>, optional_arguments: Seq<Field> },
    /// A literal value.
    Datum(Value),
}

impl Query {
    /// The wire text of a tree. A literal is written as the value is. A
    /// term is an array of its operation code, the array of its arguments
    /// and, only where it has named options, the object of these.
    pub open spec fn wire_text(self) -> Seq<char>
        decreases self, 0nat,
    {
        match self {
            Query::Datum(value) => value.wire_text(),
            Query::Term { command, arguments, optional_arguments } => seq!['[']
                + decimal(command.code()) + seq![',', '['] + arguments_text(
                arguments,
                arguments.len(),
            ) + seq![']'] + options_text(optional_arguments) + seq![']'],
        }
    }

    /// No object in the tree holds a key twice, and no term holds an
    /// option twice.
    pub open spec fn keys_unique(self) -> bool
        decreases self,
    {
        match self {
            Query::Datum(value) => value.keys_unique(),
            Query::Term { command, arguments, optional_arguments } => {
                &&& forall|i: int|
                    0 <= i < arguments.len() ==> (#[trigger] arguments[i]).keys_unique()
                &&& Value::Object(optional_arguments).keys_unique()
            },
        }
    }

    /// The term that applies `command` to `arguments`, without options.
    pub open spec fn plain(command: Term_TermType, arguments: Seq<Query>) -> Query {
        Query::Term { command, arguments, optional_arguments: Seq::empty() }
    }

    /// A string literal.
    pub open spec fn text(s: Seq<char>) -> Query {
        Query::Datum(Value::String(s))
    }
}

/// The wire text of the first `n` arguments, separated by commas.
pub open spec fn arguments_text(arguments: Seq<Query>, n: nat) -> Seq<char>
    decreases arguments, n,
{
    if n == 0 || n > arguments.len() {
        Seq::empty()
    } else if n == 1 {
        arguments[0].wire_text()
    } else {
        arguments_text(arguments, (n - 1) as nat) + seq![','] + arguments[n - 1].wire_text()
    }
}

/// The named options of a term on the wire: nothing where there is none,
/// else a comma and the object that holds them.
pub open spec fn options_text(options: Seq<Field>) -> Seq<char> {
    if options.len() == 0 {
        Seq::empty()
    } else {
        seq![','] + object_text(options)
    }
}

/// The text of one query on the wire: an array of the code that starts a
/// query, the tree, and the options of the session.
pub open spec fn envelope_text(tree: Query, default_db: Option<Seq<char>>) -> Seq<char> {
    seq!['['] + decimal(QUERY_START as nat) + seq![','] + tree.wire_text() + seq![',']
        + params_text(default_db) + seq![']']
}

/// A term without named options is an array of two items: its operation
/// code and its arguments. With named options it is an array of three.
pub proof fn lemma_options_omitted(tree: Query)
    requires
        tree is Term,
    ensures
        tree->optional_arguments.len() == 0 ==> tree.wire_text() == seq!['['] + decimal(
            tree->command.code(),
        ) + seq![',', '['] + arguments_text(tree->arguments, tree->arguments.len()) + seq![
            ']',
            ']',
        ],
        tree->optional_arguments.len() > 0 ==> tree.wire_text() == seq!['['] + decimal(
            tree->command.code(),
        ) + seq![',', '['] + arguments_text(tree->arguments, tree->arguments.len()) + seq![
            ']',
            ',',
        ] + object_text(tree->optional_arguments) + seq![']'],
{
    let head = seq!['['] + decimal(tree->command.code()) + seq![',', '['] + arguments_text(
        tree->arguments,
        tree->arguments.len(),
    );
    if tree->optional_arguments.len() == 0 {
        assert(head + seq![']'] + Seq::<char>::empty() + seq![']'] =~= head + seq![']', ']']);
    } else {
        assert(head + seq![']'] + (seq![','] + object_text(tree->optional_arguments)) + seq![']']
            =~= head + seq![']', ','] + object_text(tree->optional_arguments) + seq![']']);
    }
}

/// A term holds no key twice where its arguments hold none twice and its
/// options are at most one option with a string.
pub proof fn lemma_term_keys_unique(tree: Query)
    requires
        tree is Term,
        forall|i: int|
            0 <= i < tree->arguments.len() ==> (#[trigger] tree->arguments[i]).keys_unique(),
        tree->optional_arguments.len() <= 1,
        forall|i: int|
            0 <= i < tree->optional_arguments.len() ==> (
            #[trigger] tree->optional_arguments[i]).value is String,
    ensures
        tree.keys_unique(),
{
    let options = tree->optional_arguments;
    assert(distinct_keys(options));
    assert forall|i: int| 0 <= i < options.len() implies (#[trigger] options[i]).value.keys_unique() by {
        assert(options[i].value is String);
    }
    assert(Value::Object(options).keys_unique());
}

/// Why a query could not be run.
#[derive(Debug)]
pub enum RunQueryError {
    /// The query could not be exchanged.
    SendError(SendError),
    /// The reply could not be read.
    ParseError(ResponseParseError),
}

/// A query tree: an operation applied to trees, or a literal value. The
/// order of the arguments is that of the operation's parameters.
#[derive(Debug)]
pub enum ReQL {
    Term { command: Term_TermType, arguments: Vec<ReQL>, optional_arguments: Vec<Pair> },
    Datum(Datum),
}

impl View for ReQL {
    type V = Query;

    open spec fn view(&self) -> Query
        decreases self,
    {
        match self {
            ReQL::Datum(datum) => Query::Datum(datum@),
            ReQL::Term { command, arguments, optional_arguments } => Query::Term {
                command: *command,
                arguments: Seq::new(
                    arguments@.len(),
                    |i: int|
                        if 0 <= i < arguments@.len() {
                            arguments@[i].view()
                        } else {
                            Query::Datum(Value::Null)
                        },
                ),
                optional_arguments: fields_of(optional_arguments@),
            },
        }
    }
}

impl Clone for ReQL {
    fn clone(&self) -> (r: Self)
        ensures
            r@ == self@,
        decreases self,
    {
        match self {
            ReQL::Datum(datum) => ReQL::Datum(datum.clone()),
            ReQL::Term { command, arguments, optional_arguments } => {
                let mut copy: Vec<ReQL> = Vec::new();
                let mut i: usize = 0;
                while i < arguments.len()
                    invariant
                        i <= arguments@.len(),
                        copy@.len() == i,
                        self is Term,
                        arguments == self->arguments,
                        forall|j: int| 0 <= j < i ==> (#[trigger] copy@[j])@ == arguments@[j]@,
                    decreases arguments.len() - i,
                {
                    copy.push(arguments[i].clone());
                    i += 1;
                }
                let mut options: Vec<Pair> = Vec::new();
                let mut k: usize = 0;
                while k < optional_arguments.len()
                    invariant
                        k <= optional_arguments@.len(),
                        options@.len() == k,
                        forall|j: int|
                            0 <= j < k ==> (#[trigger] options@[j])@ == optional_arguments@[j]@,
                    decreases optional_arguments.len() - k,
                {
                    options.push(optional_arguments[k].clone());
                    k += 1;
                }
                let r = ReQL::Term { command: *command, arguments: copy, optional_arguments: options };
                assert(r@->arguments =~= self@->arguments);
                assert(r@->optional_arguments =~= self@->optional_arguments);
                r
            },
        }
    }
}

/// How firmly a write is stored before the database answers.
#[derive(Debug, Clone, Copy, PartialEq, Eq, Structural)]
pub enum Durability {
    Hard,
    Soft,
}

impl Durability {
    /// The word that stands for the choice on the wire.
    pub open spec fn word(self) -> Seq<char> {
        match self {
            Durability::Hard => "hard"@,
            Durability::Soft => "soft"@,
        }
    }

    /// The word that stands for the choice on the wire.
    pub fn serialize(&self) -> (word: String)
        ensures
            word@ == self.word(),
    {
        match *self {
            Durability::Hard => String::from_str("hard"),
            Durability::Soft => String::from_str("soft"),
        }
    }
}

/// The named options that `insert` gives its term.
pub open spec fn insert_options(durability: Option<Durability>) -> Seq<Field> {
    match durability {
        Some(d) => seq![Field { key: "durability"@, value: Value::String(d.word()) }],
        None => Seq::empty(),
    }
}

impl ReQL {
    /// A string literal.
    pub fn string(string: &str) -> (tree: ReQL)
        ensures
            tree@ == Query::text(string@),
    {
        ReQL::Datum(Datum::String(String::from_str(string)))
    }

    /// The wire text of the tree.
    pub fn serialize(&self) -> (text: String)
        ensures
            text@ == self@.wire_text(),
    {
        let mut text = String::new();
        self.write(&mut text);
        text
    }

    /// Appends the wire text of the tree.
    pub fn write(&self, out: &mut String)
        ensures
            final(out)@ == old(out)@ + self@.wire_text(),
        decreases self,
    {
        let ghost before = out@;
        match self {
            ReQL::Datum(datum) => datum.write(out),
            ReQL::Term { command, arguments, optional_arguments } => {
                let ghost views = self@->arguments;
                out.push('[');
                push_decimal(out, command.value() as u64);
                out.push(',');
                out.push('[');
                let ghost head = before + seq!['['] + decimal(command.code()) + seq![',', '['];
                assert(out@ =~= head);
                let mut i: usize = 0;
                while i < arguments.len()
                    invariant
                        i <= arguments@.len(),
                        self is Term,
                        arguments == self->arguments,
                        views == self@->arguments,
                        out@ == head + arguments_text(views, i as nat),
                    decreases arguments.len() - i,
                {
                    if i > 0 {
                        out.push(',');
                    }
                    arguments[i].write(out);
                    assert(views[i as int] == arguments@[i as int]@);
                    assert(out@ =~= head + arguments_text(views, (i + 1) as nat));
                    i += 1;
                }
                out.push(']');
                // Options are written only where there are any.
                if optional_arguments.len() > 0 {
                    out.push(',');
                    write_pairs(optional_arguments, out);
                }
                out.push(']');
                assert(out@ =~= before + self@.wire_text());
            },
        }
    }

    /// Whether no object in the tree holds a key twice, and no term an
    /// option twice.
    pub fn has_unique_keys(&self) -> (ok: bool)
        ensures
            ok == self@.keys_unique(),
        decreases self,
    {
        match self {
            ReQL::Datum(datum) => datum.has_unique_keys(),
            ReQL::Term { command, arguments, optional_arguments } => {
                let ghost views = self@->arguments;
                let mut i: usize = 0;
                while i < arguments.len()
                    invariant
                        i <= arguments@.len(),
                        self is Term,
                        arguments == self->arguments,
                        views == self@->arguments,
                        forall|j: int| 0 <= j < i ==> (#[trigger] views[j]).keys_unique(),
                    decreases arguments.len() - i,
                {
                    assert(views[i as int] == arguments@[i as int]@);
                    if !arguments[i].has_unique_keys() {
                        return false;
                    }
                    i += 1;
                }
                pairs_have_unique_keys(optional_arguments)
            },
        }
    }

    /// The text of the query as this session sends it.
    pub fn serialize_query_for_connection(&self, connection: &Connection) -> (text: String)
        ensures
            text@ == envelope_text(self@, connection@.default_db),
    {
        let mut text = String::new();
        text.push('[');
        push_decimal(&mut text, QUERY_START as u64);
        text.push(',');
        self.write(&mut text);
        text.push(',');
        connection.write_params(&mut text);
        text.push(']');
        assert(text@ =~= envelope_text(self@, connection@.default_db));
        text
    }

    /// Starts the query on a session: the frame to write to the transport.
    /// A session that is not open refuses, and is left as it is.
    pub fn run(&self, connection: &mut Connection) -> (r: Result<Vec<u8>, RunQueryError>)
        requires
            !old(connection)@.awaiting_reply,
            old(connection)@.query_count < u64::MAX,
        ensures
            !old(connection)@.is_open() ==> final(connection)@ == old(connection)@ && r matches Err(
                RunQueryError::SendError(SendError::ClosedConnectionError),
            ),
            old(connection)@.is_open() ==> final(connection)@ == old(connection)@.sent() && (
            r matches Ok(frame) && frame@ == frame_bytes(
                (old(connection)@.query_count + 1) as u64,
                encode_utf8(envelope_text(self@, old(connection)@.default_db)),
            )),
    {
        let string_reql = self.serialize_query_for_connection(connection);
        match connection.send(string_reql.as_str()) {
            Ok(frame) => Ok(frame),
            Err(e) => Err(RunQueryError::SendError(e)),
        }
    }

    /// Ends a query: the reply that the JSON document of the answer holds.
    pub fn reply(json: Json) -> (r: Result<RethinkResponse, RunQueryError>)
        ensures
            match r {
                Ok(response) => envelope_of(json@) == Ok::<Envelope, Seq<char>>(response@),
                Err(RunQueryError::ParseError(e)) => envelope_of(json@) == Err::<
                    Envelope,
                    Seq<char>,
                >(e@),
                Err(_) => false,
            },
    {
        match RethinkResponse::from_json(json) {
            Ok(response) => Ok(response),
            Err(e) => Err(RunQueryError::ParseError(e)),
        }
    }

    /// The table `table_name` of the database that this tree names.
    pub fn table(&self, table_name: &str) -> (tree: ReQL)
        ensures
            tree@ == Query::plain(Term_TermType::TABLE, seq![self@, Query::text(table_name@)]),
            self@.keys_unique() ==> tree@.keys_unique(),
    {
        let tree = ReQL::Term {
            command: Term_TermType::TABLE,
            arguments: vec![self.clone(), ReQL::string(table_name)],
            optional_arguments: Vec::new(),
        };
        assert(tree@->arguments =~= seq![self@, Query::text(table_name@)]);
        assert(tree@->optional_arguments =~= Seq::empty());
        proof {
            if self@.keys_unique() {
                assert(Query::text(table_name@).keys_unique());
                lemma_term_keys_unique(tree@);
            }
        }
        tree
    }

    /// The document under `key` in the table that this tree names.
    pub fn get(&self, key: &str) -> (tree: ReQL)
        ensures
            tree@ == Query::plain(Term_TermType::GET, seq![self@, Query::text(key@)]),
            self@.keys_unique() ==> tree@.keys_unique(),
    {
        let tree = ReQL::Term {
            command: Term_TermType::GET,
            arguments: vec![self.clone(), ReQL::string(key)],
            optional_arguments: Vec::new(),
        };
        assert(tree@->arguments =~= seq![self@, Query::text(key@)]);
        assert(tree@->optional_arguments =~= Seq::empty());
        proof {
            if self@.keys_unique() {
                assert(Query::text(key@).keys_unique());
                lemma_term_keys_unique(tree@);
            }
        }
        tree
    }

    /// The insertion of `document` into the table that this tree names.
    /// A durability, where one is given, goes into the term as the option
    /// `durability`.
    pub fn insert(&self, document: &Datum, durability: Option<Durability>) -> (tree: ReQL)
        ensures
            tree@ == (Query::Term {
                command: Term_TermType::INSERT,
                arguments: seq![self@, Query::Datum(document@)],
                optional_arguments: insert_options(durability),
            }),
            self@.keys_unique() && document@.keys_unique() ==> tree@.keys_unique(),
    {
        let mut optional_arguments: Vec<Pair> = Vec::new();
        if let Some(d) = durability {
            optional_arguments.push(
                Pair { key: String::from_str("durability"), value: Datum::String(d.serialize()) },
            );
        }
        let literal = ReQL::Datum(document.clone());
        assert(literal@ == Query::Datum(document@));
        let tree = ReQL::Term {
            command: Term_TermType::INSERT,
            arguments: vec![self.clone(), literal],
            optional_arguments,
        };
        assert(tree@->arguments =~= seq![self@, Query::Datum(document@)]);
        assert(tree@->optional_arguments =~= insert_options(durability));
        proof {
            if self@.keys_unique() && document@.keys_unique() {
                assert(Query::Datum(document@).keys_unique());
                lemma_term_keys_unique(tree@);
            }
        }
        tree
    }
}

} // verus!
