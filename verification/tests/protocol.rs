use rethink::connection::{Connection, ConnectionError, ConnectionState, SendError};
use rethink::datum::{Datum, Pair};
use rethink::json::{Json, Member};
use rethink::number::Number;
use rethink::ql2::{Response_ResponseType, Term_TermType};
use rethink::query::{Durability, ReQL, RunQueryError};
use rethink::response::RethinkResponse;
use rethink::rethink::{connect, connect_default, db, db_create, db_drop, db_list, expr, table};
use rethink::wire::{reply_length, reply_token};

/// The document that the outside parser read, as the library holds it.
fn lift(json: rustc_serialize::json::Json) -> Json {
    match json {
        rustc_serialize::json::Json::Null => Json::Null,
        rustc_serialize::json::Json::Boolean(b) => Json::Boolean(b),
        rustc_serialize::json::Json::String(s) => Json::String(s),
        rustc_serialize::json::Json::I64(n) => Json::Number(number(n as f64)),
        rustc_serialize::json::Json::U64(n) => Json::Number(number(n as f64)),
        rustc_serialize::json::Json::F64(x) => Json::Number(number(x)),
        rustc_serialize::json::Json::Array(items) => {
            Json::Array(items.into_iter().map(lift).collect())
        }
        rustc_serialize::json::Json::Object(entries) => Json::Object(
            entries.into_iter().map(|(key, value)| Member { key, value: lift(value) }).collect(),
        ),
    }
}

fn number(x: f64) -> Number {
    Number::parse(&x.to_string()).unwrap()
}

fn parse(text: &str) -> Json {
    lift(rustc_serialize::json::Json::from_str(text).unwrap())
}

fn datum_from_str(text: &str) -> Datum {
    Datum::from_json(parse(text))
}

fn pair(key: &str, value: Datum) -> Pair {
    Pair { key: key.to_string(), value }
}

/// A server that accepts the handshake and answers each query with `reply`,
/// under the token that it was sent.
fn exchange(conn: &mut Connection, query: &ReQL, reply: &str) -> RethinkResponse {
    let frame = query.run(conn).unwrap();
    let text = query.serialize_query_for_connection(conn);
    assert_eq!(&frame[12..], text.as_bytes());
    assert_eq!(reply_length(&frame[8..12]) as usize, text.len());
    let mut answer: Vec<u8> = frame[..8].to_vec();
    answer.extend_from_slice(&(reply.len() as u32).to_le_bytes());
    answer.extend_from_slice(reply.as_bytes());
    conn.accept_token(&answer[..8]).unwrap();
    let len = reply_length(&answer[8..12]) as usize;
    let body = std::str::from_utf8(&answer[12..12 + len]).unwrap();
    ReQL::reply(parse(body)).unwrap()
}

fn open_default() -> Connection {
    let (mut conn, greeting) = connect_default();
    assert_eq!(
        greeting,
        vec![0x20, 0x2d, 0x0c, 0x40, 0, 0, 0, 0, 0xc7, 0x70, 0x69, 0x7e]
    );
    conn.handshake(b"SUCCESS\0").unwrap();
    conn
}

#[test]
fn deserialize_response() {
    let resp = RethinkResponse::from_json(parse(r###"{"t":1,"r":["foo"],"n":[]}"###)).unwrap();
    assert!(resp.response_type == Response_ResponseType::SUCCESS_ATOM);
    assert!(resp.result.first().unwrap() == &Datum::String("foo".to_string()));
    assert!(resp.backtrace == Option::None)
}

#[test]
fn serialize_reql() {
    let mut options = Vec::new();
    options.push(pair("bar", Datum::String("hello".to_string())));
    options.push(pair("baz", Datum::Bool(true)));

    let reql = ReQL::Term {
        command: Term_TermType::DATUM,
        arguments: vec![ReQL::string("foo")],
        optional_arguments: options,
    };

    let serialized = reql.serialize();
    println!("{}", serialized);
    assert!(
        serialized == r##"[1,["foo"],{"bar":"hello","baz":true}]"##
            || serialized == r##"[1,["foo"],{"baz":true,"bar":"hello"}]"##
    )
}

#[test]
fn it_works() {
    let mut conn = open_default();
    let raw = r#"[1,[39,[[15,[[14,["blog"]],"users"]],{"name":"Michel"}]],{}]"#;
    let frame = conn.send(raw).unwrap();
    assert_eq!(reply_token(&frame[..8]), 1);
    assert_eq!(reply_length(&frame[8..12]) as usize, raw.len());
    assert_eq!(&frame[12..], raw.as_bytes());
    conn.accept_token(&frame[..8]).unwrap();
    println!("{:?}", parse(r#"{"t":2,"r":[]}"#));
}

#[test]
fn connect_disconnect() {
    let mut conn = open_default();
    assert!(conn.is_open());

    conn.close();
    assert!(!conn.is_open());

    conn.connect().unwrap();
    conn.handshake(b"SUCCESS\0").unwrap();
    assert!(conn.is_open());

    conn.reconnect().unwrap();
    conn.handshake(b"SUCCESS\0").unwrap();
    assert!(conn.is_open());
}

#[test]
fn test_expr() {
    let conn = open_default();
    assert_eq!(
        expr(Datum::String("foo".to_string())).serialize_query_for_connection(&conn),
        r##"[1,"foo",{}]"##
    )
}

#[test]
fn test_table() {
    let conn = open_default();

    let tablename = "__test_tablename";
    let dbname = "__test_dbname";

    assert_eq!(
        table(tablename).serialize_query_for_connection(&conn),
        format!("[1,[15,[\"{}\"]],{{}}]", tablename)
    );

    assert_eq!(
        db(dbname).table(tablename).serialize_query_for_connection(&conn),
        format!("[1,[15,[[14,[\"{}\"]],\"{}\"]],{{}}]", dbname, tablename)
    )
}

#[test]
fn use_default_db() {
    let mut conn = open_default();
    assert!(matches!(conn.default_db(), &None));

    conn.use_(Some("other_name"));
    assert!(matches!(conn.default_db(), &Some(ref db_name) if db_name == "other_name"));

    conn.use_(None);
    assert!(matches!(conn.default_db(), &None));
}

#[test]
fn sends_default_db() {
    let mut conn = open_default();
    conn.use_(Some("default_db_name"));
    assert_eq!(
        expr(Datum::String("foo".to_string())).serialize_query_for_connection(&conn),
        r##"[1,"foo",{"db":[14,["default_db_name"]]}]"##
    )
}

#[test]
fn test_db() {
    let mut conn = open_default();
    let resp = exchange(
        &mut conn,
        &db("test"),
        r#"{"t":18,"r":["Query result must be of type DATUM, GROUPED_DATA, or STREAM (got DATABASE)."],"b":[]}"#,
    );
    assert_eq!(resp.response_type, Response_ResponseType::RUNTIME_ERROR);
    assert_eq!(
        resp.result.first().unwrap(),
        &Datum::String(
            "Query result must be of type DATUM, GROUPED_DATA, or STREAM (got DATABASE)."
                .to_string()
        )
    );
}

fn count_under(res: &RethinkResponse, name: &str) -> Number {
    match res.response_type {
        Response_ResponseType::SUCCESS_ATOM => match res.result.first().unwrap() {
            &Datum::Object(ref o) => {
                let count = &o.iter().find(|p| p.key == name).unwrap().value;
                match count {
                    &Datum::Number(ref n) => n.clone(),
                    _ => panic!("unrecognized response: {:?}", res),
                }
            }
            _ => panic!("unrecognized response: {:?}", res),
        },
        _ => panic!("got an unexpected response type: {:?}", res.response_type),
    }
}

#[test]
fn create_db() {
    let mut conn = open_default();
    exchange(&mut conn, &db_drop("db_create_test"), r#"{"t":1,"r":[{"dbs_dropped":1}]}"#);
    let res = exchange(
        &mut conn,
        &db_create("db_create_test"),
        r#"{"t":1,"r":[{"dbs_created":1}]}"#,
    );
    assert!(count_under(&res, "dbs_created").floor() as u64 == 1);
}

#[test]
fn drop_db() {
    let mut conn = open_default();
    exchange(&mut conn, &db_create("db_drop_test"), r#"{"t":1,"r":[{"dbs_created":1}]}"#);
    let res =
        exchange(&mut conn, &db_drop("db_drop_test"), r#"{"t":1,"r":[{"dbs_dropped":1}]}"#);
    assert!(count_under(&res, "dbs_dropped").floor() as u64 == 1);
}

#[test]
fn list_db() {
    let mut conn = open_default();
    exchange(&mut conn, &db_create("db_list_test1"), r#"{"t":1,"r":[{"dbs_created":1}]}"#);
    exchange(&mut conn, &db_create("db_list_test2"), r#"{"t":1,"r":[{"dbs_created":1}]}"#);
    exchange(&mut conn, &db_create("db_list_test3"), r#"{"t":1,"r":[{"dbs_created":1}]}"#);
    let res = exchange(
        &mut conn,
        &db_list(),
        r#"{"t":1,"r":[["db_list_test1","db_list_test2","db_list_test3","test"]]}"#,
    );
    match res.result.first().unwrap() {
        &Datum::Array(ref db_names) => {
            assert!(db_names.contains(&Datum::String("db_list_test1".to_string())))
        }
        _ => panic!("Expected an array of database names"),
    }
}

#[test]
fn test_insert_get() {
    let mut conn = open_default();

    let key = 1234567890123456789u64.to_string();

    let table_query = db("test").table("test_table");

    let value = datum_from_str(&format!(r###"{{"id": "{}", "value": 42}}"###, key));
    let insert = table_query.insert(&value, None);
    assert_eq!(
        insert.serialize_query_for_connection(&conn),
        format!(
            r#"[1,[56,[[15,[[14,["test"]],"test_table"]],{{"id":"{}","value":42}}]],{{}}]"#,
            key
        )
    );
    let insert_result = exchange(&mut conn, &insert, r#"{"t":1,"r":[{"inserted":1,"errors":0}]}"#);
    assert!(insert_result.response_type == Response_ResponseType::SUCCESS_ATOM);
    match insert_result.result.first().unwrap() {
        &Datum::Object(ref o) => {
            if let &Datum::Number(ref n) = &o.iter().find(|p| p.key == "inserted").unwrap().value {
                assert_eq!(n.floor() as u64, 1)
            } else {
                panic!("Unexpected type of \"inserted\" metadata")
            }
        }
        _ => panic!("Unexpected type in response"),
    }

    let stored = format!(r#"{{"t":1,"r":[{{"id":"{}","value":42}}]}}"#, key);
    let get_result = exchange(&mut conn, &table_query.get(&key), &stored);
    assert!(get_result.response_type == Response_ResponseType::SUCCESS_ATOM);
    assert_eq!(*get_result.result.first().unwrap(), value)
}

#[test]
fn round_trip_of_values() {
    let values = vec![
        Datum::Null,
        Datum::Bool(true),
        Datum::Bool(false),
        Datum::String("plain".to_string()),
        Datum::String("a \"quoted\" \\ back\nline\ttab \u{1} é".to_string()),
        Datum::Number(number(42.0)),
        Datum::Number(number(-0.5)),
        Datum::Number(number(1.0e15)),
        Datum::Array(vec![Datum::Null, Datum::Number(number(1.5)), Datum::Array(vec![])]),
        Datum::Object(vec![
            pair("a\"b", Datum::String("x".to_string())),
            pair("nested", Datum::Object(vec![pair("n", Datum::Number(number(7.0)))])),
        ]),
        Datum::Object(vec![]),
    ];
    for d in values {
        assert_eq!(datum_from_str(&d.serialize()), d);
        assert!(datum_from_str(&d.serialize()).same_value(&d));
    }
    // The parser hands the entries of an object over by their keys; the
    // value is the same in whatever order they were written.
    let unsorted = Datum::Object(vec![
        pair("z", Datum::Null),
        pair("a", Datum::Array(vec![Datum::Object(vec![
            pair("y", Datum::Bool(true)),
            pair("b", Datum::Number(number(2.0))),
        ])])),
    ]);
    assert!(datum_from_str(&unsorted.serialize()).same_value(&unsorted));
    assert!(unsorted.same_value(&datum_from_str(&unsorted.serialize())));
    assert_ne!(datum_from_str(&unsorted.serialize()), unsorted);
}

#[test]
fn same_value_ignores_the_order_of_entries_only() {
    let ab = Datum::Object(vec![pair("a", Datum::Null), pair("b", Datum::Bool(true))]);
    let ba = Datum::Object(vec![pair("b", Datum::Bool(true)), pair("a", Datum::Null)]);
    let other = Datum::Object(vec![pair("b", Datum::Bool(false)), pair("a", Datum::Null)]);
    let shorter = Datum::Object(vec![pair("a", Datum::Null)]);
    assert!(ab.same_value(&ba));
    assert!(ba.same_value(&ab));
    assert!(!ab.same_value(&other));
    assert!(!ab.same_value(&shorter));
    assert!(!shorter.same_value(&ab));
    let one_two = Datum::Array(vec![Datum::Number(number(1.0)), Datum::Number(number(2.0))]);
    let two_one = Datum::Array(vec![Datum::Number(number(2.0)), Datum::Number(number(1.0))]);
    assert!(one_two.same_value(&one_two.clone()));
    assert!(!one_two.same_value(&two_one));
    assert!(!Datum::Null.same_value(&Datum::Bool(false)));
    assert!(Datum::String("x".to_string()).same_value(&Datum::String("x".to_string())));
    assert!(!Datum::String("x".to_string()).same_value(&Datum::String("y".to_string())));
    assert!(!Datum::Array(vec![]).same_value(&Datum::Object(vec![])));
    assert!(number(1.5).same(&number(1.5)));
    assert!(!number(1.5).same(&number(2.5)));
}

#[test]
fn unique_keys_are_told_from_repeated_ones() {
    assert!(Datum::Null.has_unique_keys());
    assert!(Datum::Object(vec![]).has_unique_keys());
    assert!(Datum::Object(vec![pair("a", Datum::Null), pair("b", Datum::Null)]).has_unique_keys());
    assert!(!Datum::Object(vec![pair("a", Datum::Null), pair("a", Datum::Bool(true))])
        .has_unique_keys());
    assert!(!Datum::Object(vec![
        pair("a", Datum::Null),
        pair("b", Datum::Null),
        pair("a", Datum::Null)
    ])
    .has_unique_keys());
    let inner = Datum::Object(vec![pair("k", Datum::Null), pair("k", Datum::Null)]);
    assert!(!Datum::Array(vec![Datum::Null, inner.clone()]).has_unique_keys());
    assert!(!Datum::Object(vec![pair("outer", inner)]).has_unique_keys());
    assert!(datum_from_str(r#"{"a":{"b":[{"c":1,"d":2}]},"e":null}"#).has_unique_keys());
}

#[test]
fn literal_texts_are_exact() {
    assert_eq!(Datum::Null.serialize(), "null");
    assert_eq!(Datum::Bool(true).serialize(), "true");
    assert_eq!(Datum::Bool(false).serialize(), "false");
    assert_eq!(Datum::Number(number(42.0)).serialize(), "42");
    assert_eq!(Datum::Number(number(-1.25)).serialize(), "-1.25");
    assert_eq!(Datum::String("foo".to_string()).serialize(), "\"foo\"");
    assert_eq!(Datum::String("a\"b\\c".to_string()).serialize(), r#""a\"b\\c""#);
    assert_eq!(Datum::String("\n\u{1f}".to_string()).serialize(), r#""\u000a\u001f""#);
    assert_eq!(
        Datum::Array(vec![Datum::Null, Datum::Bool(true)]).serialize(),
        "[null,true]"
    );
    assert_eq!(Datum::Array(vec![]).serialize(), "[]");
    assert_eq!(Datum::Object(vec![]).serialize(), "{}");
    assert_eq!(
        Datum::Object(vec![pair("k", Datum::Null), pair("l", Datum::Bool(false))]).serialize(),
        r#"{"k":null,"l":false}"#
    );
}

#[test]
fn term_nesting_is_exact() {
    assert_eq!(db("d").table("t").serialize(), r#"[15,[[14,["d"]],"t"]]"#);
    assert_eq!(db("d").table("t").get("k").serialize(), r#"[16,[[15,[[14,["d"]],"t"]],"k"]]"#);
    assert_eq!(db_list().serialize(), "[59,[]]");
    assert_eq!(db_create("x").serialize(), r#"[57,["x"]]"#);
    assert_eq!(db_drop("x").serialize(), r#"[58,["x"]]"#);
}

#[test]
fn options_are_written_only_where_there_are_any() {
    let doc = Datum::Object(vec![pair("id", Datum::String("1".to_string()))]);
    let none = table("t").insert(&doc, None);
    assert_eq!(none.serialize(), r#"[56,[[15,["t"]],{"id":"1"}]]"#);
    let hard = table("t").insert(&doc, Some(Durability::Hard));
    assert_eq!(hard.serialize(), r#"[56,[[15,["t"]],{"id":"1"}],{"durability":"hard"}]"#);
    let soft = table("t").insert(&doc, Some(Durability::Soft));
    assert_eq!(soft.serialize(), r#"[56,[[15,["t"]],{"id":"1"}],{"durability":"soft"}]"#);
    assert_eq!(Durability::Hard.serialize(), "hard");
    assert_eq!(Durability::Soft.serialize(), "soft");
    // Both forms are JSON arrays, of two and of three items.
    match parse(&none.serialize()) {
        Json::Array(items) => assert_eq!(items.len(), 2),
        other => panic!("no array: {:?}", other),
    }
    match parse(&hard.serialize()) {
        Json::Array(items) => assert_eq!(items.len(), 3),
        other => panic!("no array: {:?}", other),
    }
}

#[test]
fn serialization_with_and_without_default_db() {
    let (conn, _) = connect("localhost", 28015, None, None, 20);
    assert_eq!(conn.serialize_params(), "{}");
    assert_eq!(
        expr(Datum::String("foo".to_string())).serialize_query_for_connection(&conn),
        r#"[1,"foo",{}]"#
    );
    let (with_db, _) = connect("localhost", 28015, Some("d"), None, 20);
    assert_eq!(with_db.serialize_params(), r#"{"db":[14,["d"]]}"#);
    assert_eq!(
        expr(Datum::String("foo".to_string())).serialize_query_for_connection(&with_db),
        r#"[1,"foo",{"db":[14,["d"]]}]"#
    );
}

#[test]
fn status_decoding() {
    let resp = RethinkResponse::from_json(parse(r#"{"t":1,"r":["foo"]}"#)).unwrap();
    assert_eq!(resp.response_type, Response_ResponseType::SUCCESS_ATOM);
    assert_eq!(resp.result, vec![Datum::String("foo".to_string())]);
    assert_eq!(resp.backtrace, None);

    let codes = [
        (1, Response_ResponseType::SUCCESS_ATOM),
        (2, Response_ResponseType::SUCCESS_SEQUENCE),
        (3, Response_ResponseType::SUCCESS_PARTIAL),
        (4, Response_ResponseType::WAIT_COMPLETE),
        (16, Response_ResponseType::CLIENT_ERROR),
        (17, Response_ResponseType::COMPILE_ERROR),
        (18, Response_ResponseType::RUNTIME_ERROR),
    ];
    for (code, status) in codes {
        let resp =
            RethinkResponse::from_json(parse(&format!(r#"{{"t":{},"r":[]}}"#, code))).unwrap();
        assert_eq!(resp.response_type, status);
        assert_eq!(status.value(), code);
        assert_eq!(Response_ResponseType::from_i32(code), Some(status));
    }
    assert_eq!(Response_ResponseType::from_i32(0), None);
    assert_eq!(Response_ResponseType::from_i32(5), None);
    // A status with a fraction is rounded down.
    let resp = RethinkResponse::from_json(parse(r#"{"t":17.9,"r":[]}"#)).unwrap();
    assert_eq!(resp.response_type, Response_ResponseType::COMPILE_ERROR);
}

#[test]
fn backtrace_decoding() {
    let resp =
        RethinkResponse::from_json(parse(r#"{"t":18,"r":["bad"],"b":["a",1,"c"]}"#)).unwrap();
    assert_eq!(
        resp.backtrace,
        Some(vec!["a".to_string(), "".to_string(), "c".to_string()])
    );
    let resp = RethinkResponse::from_json(parse(r#"{"t":18,"r":["bad"],"b":"x"}"#)).unwrap();
    assert_eq!(resp.backtrace, None);
}

#[test]
fn envelope_errors() {
    let cases = [
        (r#"[1,2]"#, "Parse error: expected the rethink json response to be an object"),
        (r#"{"r":[]}"#, "Parse error: rethink response type was non-numeric"),
        (r#"{"t":"1","r":[]}"#, "Parse error: rethink response type was non-numeric"),
        (r#"{"t":7,"r":[]}"#, "Parse error: unrecognized rethink response type"),
        (r#"{"t":-0.5,"r":[]}"#, "Parse error: unrecognized rethink response type"),
        (r#"{"t":1e300,"r":[]}"#, "Parse error: unrecognized rethink response type"),
        (r#"{"t":1,"r":{}}"#, "Parse error: \"r\" field of rethink response should be an array"),
        (r#"{"t":1}"#, "Parse error: rethink response didn't contain a response field"),
    ];
    for (text, message) in cases {
        assert_eq!(RethinkResponse::from_json(parse(text)).unwrap_err(), message);
        match ReQL::reply(parse(text)) {
            Err(RunQueryError::ParseError(e)) => assert_eq!(e, message),
            other => panic!("no parse error: {:?}", other),
        }
    }
}

#[test]
fn connect_on_open_is_refused() {
    let mut conn = open_default();
    assert_eq!(
        conn.connect(),
        Err(ConnectionError::InvalidOperationError(
            "Connection must be closed before calling connect.".to_string()
        ))
    );
    assert!(conn.is_open());
}

#[test]
fn a_session_is_open_only_behind_its_handshake() {
    let (mut conn, _) = connect_default();
    assert_eq!(conn.state(), ConnectionState::Connecting);
    assert!(!conn.is_open());
    assert!(matches!(conn.send("[1,1,{}]"), Err(SendError::ClosedConnectionError)));
    assert_eq!(conn.query_count(), 0);
    conn.handshake(b"SUCCESS\0").unwrap();
    assert_eq!(conn.state(), ConnectionState::Open);
    assert!(conn.is_open());
    assert_eq!(
        conn.handshake(b"SUCCESS\0"),
        Err(ConnectionError::InvalidOperationError(
            "Tried to handshake on an open connection!".to_string()
        ))
    );
    assert!(conn.is_open());
    conn.close();
    assert_eq!(conn.state(), ConnectionState::Closed);
    let again = conn.connect().unwrap();
    let once_more = conn.connect().unwrap();
    assert_eq!(again, once_more);
    assert_eq!(conn.state(), ConnectionState::Connecting);
}

#[test]
fn close_is_idempotent() {
    let mut conn = open_default();
    conn.close();
    assert!(!conn.is_open());
    conn.close();
    assert!(!conn.is_open());
    assert_eq!(conn.query_count(), 0);
}

#[test]
fn refused_handshake_closes() {
    let (mut conn, _) = connect("db.example", 1, None, Some("secret"), 5);
    assert_eq!(
        conn.handshake(b"ERROR: Incorrect authorization key.\n\0"),
        Err(ConnectionError::RethinkError("ERROR: Incorrect authorization key.\n".to_string()))
    );
    assert!(!conn.is_open());
    assert_eq!(
        conn.handshake(b"SUCCESS\0"),
        Err(ConnectionError::InvalidOperationError(
            "Tried to handshake on a closed connection!".to_string()
        ))
    );
    let (mut conn, _) = connect("db.example", 1, None, None, 5);
    assert_eq!(
        conn.handshake(&[0xff, 0xfe, 0]),
        Err(ConnectionError::IoError("invalid utf-8".to_string()))
    );
    assert!(!conn.is_open());
}

#[test]
fn send_on_closed_is_refused() {
    let mut conn = Connection::new("localhost", 28015, None, None, 20);
    assert!(matches!(conn.send("[1,1,{}]"), Err(SendError::ClosedConnectionError)));
    assert_eq!(conn.query_count(), 0);
    assert!(!conn.is_awaiting_reply());
    assert!(matches!(
        db("x").run(&mut conn),
        Err(RunQueryError::SendError(SendError::ClosedConnectionError))
    ));
}

#[test]
fn tokens_count_up_and_mismatch_is_refused() {
    let mut conn = open_default();
    let first = conn.send("[1,1,{}]").unwrap();
    assert_eq!(&first[..8], &[1, 0, 0, 0, 0, 0, 0, 0]);
    assert!(conn.is_awaiting_reply());
    conn.accept_token(&first[..8]).unwrap();
    assert!(!conn.is_awaiting_reply());
    let second = conn.send("[1,2,{}]").unwrap();
    assert_eq!(&second[..8], &[2, 0, 0, 0, 0, 0, 0, 0]);
    assert_eq!(conn.query_count(), 2);
    match conn.accept_token(&first[..8]) {
        Err(SendError::MismatchedQueryTokenError(text)) => {
            assert_eq!(text, "Query token (1) does not match 2")
        }
        other => panic!("no mismatch: {:?}", other),
    }
    conn.send("[1,3,{}]").unwrap();
    conn.abandon_reply();
    assert!(!conn.is_awaiting_reply());
    assert_eq!(conn.query_count(), 3);
}

#[test]
fn settings_are_kept() {
    let mut conn = Connection::new("h", 7, Some("d"), Some("k"), 9);
    assert_eq!(conn.host(), "h");
    assert_eq!(conn.port(), 7);
    assert_eq!(conn.timeout_secs(), 9);
    assert_eq!(conn.default_db(), &Some("d".to_string()));
    assert!(!conn.is_open());
    let greeting = conn.reconnect().unwrap();
    assert_eq!(
        greeting,
        vec![0x20, 0x2d, 0x0c, 0x40, 1, 0, 0, 0, b'k', 0xc7, 0x70, 0x69, 0x7e]
    );
    conn.close();
    assert_eq!(conn.host(), "h");
    assert_eq!(conn.default_db(), &Some("d".to_string()));
}

#[test]
fn trees_are_checked_for_repeated_keys() {
    assert!(db("d").table("t").get("k").has_unique_keys());
    assert!(table("t").insert(&Datum::Object(vec![]), Some(Durability::Soft)).has_unique_keys());
    let doubled = Datum::Object(vec![pair("a", Datum::Null), pair("a", Datum::Null)]);
    assert!(!table("t").insert(&doubled, None).has_unique_keys());
    assert!(!expr(doubled).has_unique_keys());
    let term = ReQL::Term {
        command: Term_TermType::INSERT,
        arguments: vec![],
        optional_arguments: vec![
            pair("durability", Datum::String("hard".to_string())),
            pair("durability", Datum::String("soft".to_string())),
        ],
    };
    assert!(!term.has_unique_keys());
}
