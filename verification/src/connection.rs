//! The session with the database as a state machine: what is written to
//! the transport and what follows from the bytes that come back.

use vstd::prelude::*;
use vstd::utf8::encode_utf8;
use crate::query::Query;
use crate::ql2::Term_TermType;
use crate::text::{decimal, push_decimal, push_quoted, quoted};
use crate::wire::{
    frame_bytes, handshake_bytes, handshake_request, le_value, query_frame, read_string,
    read_string_spec, reply_token, ReadStringError,
};

verus! {

/// The error with which the outside JSON parser refuses a text.
#[verifier::external_type_specification]
#[verifier::external_body]
pub struct ExParserError(rustc_serialize::json::ParserError);

/// Why a session could not be opened.
#[derive(Debug, PartialEq, Eq)]
pub enum ConnectionError {
    /// The transport could not be connected.
    ConnectionError(String),
    /// The connection is in no state for the operation.
    InvalidOperationError(String),
    /// The server refused the handshake; the text is its answer.
    RethinkError(String),
    /// The transport failed, or sent what is no text.
    IoError(String),
}

/// Why a query could not be exchanged.
#[derive(Debug)]
pub enum SendError {
    /// The connection is closed.
    ClosedConnectionError,
    /// The reply is no JSON document.
    ResponseParseError(rustc_serialize::json::ParserError),
    /// The reply answers another query than the one that was sent.
    MismatchedQueryTokenError(String),
    /// The transport failed.
    IoError(String),
}

/// What is said of bytes that are no UTF-8.
pub open spec fn utf8_failure() -> Seq<char> {
    "invalid utf-8"@
}

impl ConnectionError {
    /// A failure to read the server's text as a failure of the transport.
    pub fn from(e: ReadStringError) -> (r: ConnectionError)
        ensures
            match e {
                ReadStringError::FromUtf8Error => r matches ConnectionError::IoError(m) && m@
                    == utf8_failure(),
                ReadStringError::IoError(text) => r matches ConnectionError::IoError(m) && m@
                    == text@,
            },
    {
        match e {
            ReadStringError::FromUtf8Error => ConnectionError::IoError(
                String::from_str("invalid utf-8"),
            ),
            ReadStringError::IoError(text) => ConnectionError::IoError(text),
        }
    }
}

/// How far a session has come.
#[derive(Debug, Clone, Copy, PartialEq, Eq, Structural)]
pub enum ConnectionState {
    /// The handshake succeeded: queries can be sent.
    Open,
    /// There is no session.
    Closed,
    /// The handshake request was given out and its answer is awaited.
    Connecting,
}

/// A connection as a mathematical object.
pub struct Session {
    pub state: ConnectionState,
    /// The token of the query that was sent last.
    pub query_count: nat,
    /// Whether a query was sent whose reply has not been taken.
    pub awaiting_reply: bool,
    pub host: Seq<char>,
    pub port: u16,
    pub default_db: Option<Seq<char>>,
    pub auth_key: Seq<char>,
    pub timeout_secs: u32,
}

/// The state of one session with the database. It holds no transport: the
/// caller writes the bytes that the methods return and hands back the
/// bytes that it reads.
#[derive(Debug)]
pub struct Connection {
    state: ConnectionState,
    query_count: u64,
    awaiting_reply: bool,
    host: String,
    port: u16,
    default_db: Option<String>,
    auth_key: String,
    timeout_secs: u32,
}

/// The text of an optional name.
pub open spec fn name_of(name: Option<String>) -> Option<Seq<char>> {
    match name {
        Some(s) => Some(s@),
        None => None,
    }
}

/// The text of an optional string slice.
pub open spec fn slice_text(name: Option<&str>) -> Option<Seq<char>> {
    match name {
        Some(s) => Some(s@),
        None => None,
    }
}

/// The options that go with every query of a session: none, or the
/// default database as the option `db`, a database term.
pub open spec fn params_text(default_db: Option<Seq<char>>) -> Seq<char> {
    match default_db {
        Some(name) => seq!['{'] + quoted("db"@) + seq![':'] + Query::plain(
            Term_TermType::DB,
            seq![Query::text(name)],
        ).wire_text() + seq!['}'],
        None => seq!['{', '}'],
    }
}

/// What is said of a reply whose token is not that of the query.
pub open spec fn mismatch_text(received: nat, sent: nat) -> Seq<char> {
    "Query token ("@ + decimal(received) + ") does not match "@ + decimal(sent)
}

fn owned(name: Option<&str>) -> (r: Option<String>)
    ensures
        name_of(r) == slice_text(name),
{
    match name {
        Some(s) => Some(String::from_str(s)),
        None => None,
    }
}

impl View for Connection {
    type V = Session;

    closed spec fn view(&self) -> Session {
        Session {
            state: self.state,
            query_count: self.query_count as nat,
            awaiting_reply: self.awaiting_reply,
            host: self.host@,
            port: self.port,
            default_db: name_of(self.default_db),
            auth_key: self.auth_key@,
            timeout_secs: self.timeout_secs,
        }
    }
}

impl Session {
    /// Whether queries can be sent.
    pub open spec fn is_open(self) -> bool {
        self.state == ConnectionState::Open
    }

    /// The session after it was closed: nothing else changes.
    pub open spec fn closed(self) -> Session {
        Session { state: ConnectionState::Closed, awaiting_reply: false, ..self }
    }

    /// The session after its handshake request was given out.
    pub open spec fn connecting(self) -> Session {
        Session { state: ConnectionState::Connecting, awaiting_reply: false, ..self }
    }

    /// The session after the server accepted the handshake.
    pub open spec fn opened(self) -> Session {
        Session { state: ConnectionState::Open, awaiting_reply: false, ..self }
    }

    /// The session after one more query was sent.
    pub open spec fn sent(self) -> Session {
        Session { query_count: self.query_count + 1, awaiting_reply: true, ..self }
    }

    /// The session after the reply that was awaited was taken or given up.
    pub open spec fn settled(self) -> Session {
        Session { awaiting_reply: false, ..self }
    }
}

/// Closing a closed session changes nothing.
pub proof fn lemma_close_idempotent(session: Session)
    ensures
        session.closed().closed() == session.closed(),
        !session.closed().is_open(),
{
}

/// A session is open only behind a handshake that the server accepted:
/// neither a new connection nor one whose handshake is under way is.
pub proof fn lemma_open_only_by_handshake(session: Session)
    ensures
        !session.closed().is_open(),
        !session.connecting().is_open(),
        session.opened().is_open(),
{
}

/// No step of a session takes a token back: the count of the queries
/// that were sent stays or grows by one.
pub proof fn lemma_tokens_never_decrease(session: Session)
    ensures
        session.closed().query_count == session.query_count,
        session.connecting().query_count == session.query_count,
        session.opened().query_count == session.query_count,
        session.settled().query_count == session.query_count,
        session.sent().query_count == session.query_count + 1,
{
}

/// The server that echoes the token of a frame sends the token that the
/// session awaits, and no other token is that one.
pub proof fn lemma_echo_is_awaited(session: Session, query: Seq<u8>, other: Seq<u8>)
    requires
        session.query_count < u64::MAX,
    ensures
        le_value(frame_bytes((session.query_count + 1) as u64, query).take(8))
            == session.sent().query_count,
        other.len() == 8 && other != frame_bytes((session.query_count + 1) as u64, query).take(8)
            ==> le_value(other) != session.sent().query_count,
{
    let token = (session.query_count + 1) as u64;
    crate::wire::lemma_frame_symmetry(token, query);
    if other.len() == 8 && le_value(other) == token as nat {
        crate::wire::lemma_le_value_round_trip(other);
        crate::wire::lemma_le_value_round_trip(frame_bytes(token, query).take(8));
    }
}

impl Connection {
    /// A closed connection that has sent no query.
    pub fn new(
        host: &str,
        port: u16,
        default_db: Option<&str>,
        auth_key: Option<&str>,
        timeout_secs: u32,
    ) -> (c: Connection)
        ensures
            c@ == (Session {
                state: ConnectionState::Closed,
                query_count: 0,
                awaiting_reply: false,
                host: host@,
                port,
                default_db: slice_text(default_db),
                auth_key: match auth_key {
                    Some(key) => key@,
                    None => Seq::empty(),
                },
                timeout_secs,
            }),
    {
        Connection {
            state: ConnectionState::Closed,
            query_count: 0,
            awaiting_reply: false,
            host: String::from_str(host),
            port,
            default_db: owned(default_db),
            auth_key: match auth_key {
                Some(key) => String::from_str(key),
                None => String::new(),
            },
            timeout_secs,
        }
    }

    /// Starts a session and gives the handshake request to write to the
    /// transport, once that is connected. The session is open only after
    /// `handshake` has judged the server's answer. An open connection is
    /// left as it is and the call refused.
    pub fn connect(&mut self) -> (r: Result<Vec<u8>, ConnectionError>)
        ensures
            old(self)@.is_open() ==> final(self)@ == old(self)@ && (r matches Err(
                ConnectionError::InvalidOperationError(m),
            ) && m@ == "Connection must be closed before calling connect."@),
            !old(self)@.is_open() ==> final(self)@ == old(self)@.connecting() && (
            r matches Ok(bytes) && bytes@ == handshake_bytes(encode_utf8(old(self)@.auth_key))),
    {
        match self.state {
            ConnectionState::Open => Err(
                ConnectionError::InvalidOperationError(
                    String::from_str("Connection must be closed before calling connect."),
                ),
            ),
            _ => {
                self.state = ConnectionState::Connecting;
                self.awaiting_reply = false;
                Ok(handshake_request(self.auth_key.as_str()))
            },
        }
    }

    /// Judges the server's answer to the handshake request: the bytes that
    /// were read up to and without the terminating zero byte, or beyond.
    /// The session is open on the answer `SUCCESS`; any other answer
    /// closes it, so that a refused session is never half open. Where no
    /// handshake is under way the call is refused and nothing changes.
    pub fn handshake(&mut self, reply: &[u8]) -> (r: Result<(), ConnectionError>)
        ensures
            old(self)@.state == ConnectionState::Closed ==> final(self)@ == old(self)@ && (
            r matches Err(ConnectionError::InvalidOperationError(m)) && m@
                == "Tried to handshake on a closed connection!"@),
            old(self)@.state == ConnectionState::Open ==> final(self)@ == old(self)@ && (
            r matches Err(ConnectionError::InvalidOperationError(m)) && m@
                == "Tried to handshake on an open connection!"@),
            old(self)@.state == ConnectionState::Connecting ==> match read_string_spec(reply@) {
                Some(answer) => if answer == "SUCCESS"@ {
                    r is Ok && final(self)@ == old(self)@.opened()
                } else {
                    final(self)@ == old(self)@.closed() && (r matches Err(
                        ConnectionError::RethinkError(m),
                    ) && m@ == answer)
                },
                None => final(self)@ == old(self)@.closed() && (r matches Err(
                    ConnectionError::IoError(m),
                ) && m@ == utf8_failure()),
            },
    {
        match self.state {
            ConnectionState::Closed => Err(
                ConnectionError::InvalidOperationError(
                    String::from_str("Tried to handshake on a closed connection!"),
                ),
            ),
            ConnectionState::Open => Err(
                ConnectionError::InvalidOperationError(
                    String::from_str("Tried to handshake on an open connection!"),
                ),
            ),
            ConnectionState::Connecting => match read_string(reply) {
                Ok(answer) => {
                    if answer == String::from_str("SUCCESS") {
                        self.state = ConnectionState::Open;
                        self.awaiting_reply = false;
                        Ok(())
                    } else {
                        self.close();
                        Err(ConnectionError::RethinkError(answer))
                    }
                },
                Err(e) => {
                    self.close();
                    Err(ConnectionError::from(e))
                },
            },
        }
    }

    /// Closes the session. The caller drops the transport.
    pub fn close(&mut self)
        ensures
            final(self)@ == old(self)@.closed(),
    {
        self.state = ConnectionState::Closed;
        self.awaiting_reply = false;
    }

    /// Closes the session and starts a new one: the handshake request to
    /// write to the new transport.
    pub fn reconnect(&mut self) -> (r: Result<Vec<u8>, ConnectionError>)
        ensures
            final(self)@ == old(self)@.connecting(),
            r matches Ok(bytes) && bytes@ == handshake_bytes(encode_utf8(old(self)@.auth_key)),
    {
        self.close();
        self.connect()
    }

    /// Sets or clears the default database of the queries that follow.
    pub fn use_(&mut self, default_db: Option<&str>)
        ensures
            final(self)@ == (Session { default_db: slice_text(default_db), ..old(self)@ }),
    {
        self.default_db = owned(default_db);
    }

    /// Takes the next token and gives the frame of the query to write to
    /// the transport. A connection that is not open is left as it is and
    /// the call refused. One query is under way at a time: the reply to
    /// the last one was taken or given up.
    pub fn send(&mut self, raw_string: &str) -> (r: Result<Vec<u8>, SendError>)
        requires
            !old(self)@.awaiting_reply,
            old(self)@.query_count < u64::MAX,
        ensures
            !old(self)@.is_open() ==> final(self)@ == old(self)@ && r matches Err(
                SendError::ClosedConnectionError,
            ),
            old(self)@.is_open() ==> final(self)@ == old(self)@.sent() && (r matches Ok(frame)
                && frame@ == frame_bytes(
                (old(self)@.query_count + 1) as u64,
                encode_utf8(raw_string@),
            )),
    {
        match self.state {
            ConnectionState::Open => {
                self.query_count += 1;
                self.awaiting_reply = true;
                Ok(query_frame(self.query_count, raw_string))
            },
            _ => Err(SendError::ClosedConnectionError),
        }
    }

    /// Takes the token that opens the reply: the eight bytes that were
    /// read. It must be the token of the query that was sent last; any
    /// other is refused, and the transport is then not to be trusted.
    /// Either way the reply is no longer awaited.
    pub fn accept_token(&mut self, token: &[u8]) -> (r: Result<(), SendError>)
        requires
            token@.len() == 8,
        ensures
            final(self)@ == old(self)@.settled(),
            le_value(token@) == old(self)@.query_count ==> r is Ok,
            le_value(token@) != old(self)@.query_count ==> (r matches Err(
                SendError::MismatchedQueryTokenError(m),
            ) && m@ == mismatch_text(le_value(token@), old(self)@.query_count)),
    {
        self.awaiting_reply = false;
        let received: u64 = reply_token(token);
        if received != self.query_count {
            let mut text = String::from_str("Query token (");
            push_decimal(&mut text, received);
            text.append(") does not match ");
            push_decimal(&mut text, self.query_count);
            Err(SendError::MismatchedQueryTokenError(text))
        } else {
            Ok(())
        }
    }

    /// Gives up the reply that is awaited, after the transport failed.
    pub fn abandon_reply(&mut self)
        ensures
            final(self)@ == old(self)@.settled(),
    {
        self.awaiting_reply = false;
    }

    /// The options that go with every query of this session.
    pub fn serialize_params(&self) -> (text: String)
        ensures
            text@ == params_text(self@.default_db),
    {
        let mut text = String::new();
        self.write_params(&mut text);
        text
    }

    /// Appends the options that go with every query of this session.
    pub fn write_params(&self, out: &mut String)
        ensures
            final(out)@ == old(out)@ + params_text(self@.default_db),
    {
        let ghost before = out@;
        out.push('{');
        match &self.default_db {
            Some(db_name) => {
                push_quoted(out, "db");
                out.push(':');
                crate::rethink::db(db_name.as_str()).write(out);
            },
            None => {},
        }
        out.push('}');
        assert(out@ =~= before + params_text(self@.default_db));
    }

    /// Whether the session is open.
    pub fn is_open(&self) -> (open: bool)
        ensures
            open == self@.is_open(),
    {
        match self.state {
            ConnectionState::Open => true,
            _ => false,
        }
    }

    /// How far the session has come.
    pub fn state(&self) -> (state: ConnectionState)
        ensures
            state == self@.state,
    {
        self.state
    }

    /// Whether a query was sent whose reply has not been taken.
    pub fn is_awaiting_reply(&self) -> (awaiting: bool)
        ensures
            awaiting == self@.awaiting_reply,
    {
        self.awaiting_reply
    }

    /// The token of the query that was sent last; zero before the first.
    pub fn query_count(&self) -> (count: u64)
        ensures
            count == self@.query_count,
    {
        self.query_count
    }

    /// The default database, if one is set.
    pub fn default_db(&self) -> (name: &Option<String>)
        ensures
            name_of(*name) == self@.default_db,
    {
        &self.default_db
    }

    /// The host to connect the transport to.
    pub fn host(&self) -> (host: &str)
        ensures
            host@ == self@.host,
    {
        self.host.as_str()
    }

    /// The port to connect the transport to.
    pub fn port(&self) -> (port: u16)
        ensures
            port == self@.port,
    {
        self.port
    }

    /// The seconds after which the transport gives up.
    pub fn timeout_secs(&self) -> (secs: u32)
        ensures
            secs == self@.timeout_secs,
    {
        self.timeout_secs
    }
}

} // verus!
