//! The entry points: opening a session and the roots of query trees.

use vstd::prelude::*;
use vstd::utf8::encode_utf8;
use crate::connection::{Connection, ConnectionState, Session};
use crate::datum::Datum;
use crate::ql2::Term_TermType;
use crate::query::{lemma_term_keys_unique, Query, ReQL};
use crate::wire::handshake_bytes;

verus! {

/// A connection to the database on this machine, at the usual port, its
/// session started, and the handshake request to write to its transport.
pub fn connect_default() -> (r: (Connection, Vec<u8>))
    ensures
        r.0@ == (Session {
            state: ConnectionState::Connecting,
            query_count: 0,
            awaiting_reply: false,
            host: "localhost"@,
            port: 28015,
            default_db: None,
            auth_key: Seq::empty(),
            timeout_secs: 20,
        }),
        r.1@ == handshake_bytes(encode_utf8(Seq::empty())),
{
    connect("localhost", 28015, None, None, 20)
}

/// A connection with these settings, its session started, and the
/// handshake request to write to its transport.
pub fn connect(
    host: &str,
    port: u16,
    default_db: Option<&str>,
    auth_key: Option<&str>,
    timeout_secs: u32,
) -> (r: (Connection, Vec<u8>))
    ensures
        r.0@ == (Session {
            state: ConnectionState::Connecting,
            query_count: 0,
            awaiting_reply: false,
            host: host@,
            port,
            default_db: crate::connection::slice_text(default_db),
            auth_key: match auth_key {
                Some(key) => key@,
                None => Seq::empty(),
            },
            timeout_secs,
        }),
        r.1@ == handshake_bytes(encode_utf8(r.0@.auth_key)),
{
    let mut c = Connection::new(host, port, default_db, auth_key, timeout_secs);
    match c.connect() {
        Ok(request) => (c, request),
        // A new connection is closed, and `connect` refuses only an open one.
        Err(_) => vstd::pervasive::unreached(),
    }
}

fn rooted(command: Term_TermType, name: &str) -> (tree: ReQL)
    ensures
        tree@ == Query::plain(command, seq![Query::text(name@)]),
        tree@.keys_unique(),
{
    let tree = ReQL::Term {
        command,
        arguments: vec![ReQL::string(name)],
        optional_arguments: Vec::new(),
    };
    assert(tree@->arguments =~= seq![Query::text(name@)]);
    assert(tree@->optional_arguments =~= Seq::empty());
    proof {
        assert(Query::text(name@).keys_unique());
        lemma_term_keys_unique(tree@);
    }
    tree
}

/// The creation of the database `db_name`.
pub fn db_create(db_name: &str) -> (tree: ReQL)
    ensures
        tree@ == Query::plain(Term_TermType::DB_CREATE, seq![Query::text(db_name@)]),
        tree@.keys_unique(),
{
    rooted(Term_TermType::DB_CREATE, db_name)
}

/// The removal of the database `db_name`.
pub fn db_drop(db_name: &str) -> (tree: ReQL)
    ensures
        tree@ == Query::plain(Term_TermType::DB_DROP, seq![Query::text(db_name@)]),
        tree@.keys_unique(),
{
    rooted(Term_TermType::DB_DROP, db_name)
}

/// The list of the databases.
pub fn db_list() -> (tree: ReQL)
    ensures
        tree@ == Query::plain(Term_TermType::DB_LIST, Seq::empty()),
        tree@.keys_unique(),
{
    let tree = ReQL::Term {
        command: Term_TermType::DB_LIST,
        arguments: Vec::new(),
        optional_arguments: Vec::new(),
    };
    assert(tree@->arguments =~= Seq::empty());
    assert(tree@->optional_arguments =~= Seq::empty());
    proof {
        lemma_term_keys_unique(tree@);
    }
    tree
}

/// A literal value as a query.
pub fn expr(expression: Datum) -> (tree: ReQL)
    ensures
        tree@ == Query::Datum(expression@),
        expression@.keys_unique() ==> tree@.keys_unique(),
{
    ReQL::Datum(expression)
}

/// The database `db_name`.
pub fn db(db_name: &str) -> (tree: ReQL)
    ensures
        tree@ == Query::plain(Term_TermType::DB, seq![Query::text(db_name@)]),
        tree@.keys_unique(),
{
    rooted(Term_TermType::DB, db_name)
}

/// The table `table_name` of the session's default database.
pub fn table(table_name: &str) -> (tree: ReQL)
    ensures
        tree@ == Query::plain(Term_TermType::TABLE, seq![Query::text(table_name@)]),
        tree@.keys_unique(),
{
    rooted(Term_TermType::TABLE, table_name)
}

} // verus!
