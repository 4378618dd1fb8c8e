use carol_dispatch::codec::{decode_activation, encode_activation, encode_value};
use carol_dispatch::counter::{Counter, GET_COUNTER, SET_COUNTER};
use carol_dispatch::docs::{activation_names, render_docs};
use carol_dispatch::form::decode_query;
use carol_dispatch::http::{begin_http, finish_http, handle_http, split_uri, HttpStep, Request, Served};
use carol_dispatch::interface::machine;
use carol_dispatch::json::{decode_json_body, result_json};
use carol_dispatch::machine::{activate, Machine};
use carol_dispatch::routes::{RouteEntry, RouteTable, Target};
use carol_dispatch::scalar::{Scalar, ScalarType};
use carol_dispatch::schema::{
    extract_docs, extract_schema, ArgShape, MethodDecl, Operation, Param, Route, SchemaError,
};
use carol_dispatch::HttpMethod;

fn counter_setup() -> (Vec<Operation>, RouteTable, Vec<u8>) {
    let ops = Counter::operations();
    let table = RouteTable::build(&ops);
    let page = render_docs("counter", "0.1.0", &None, &ops).into_bytes();
    (ops, table, page)
}

fn state_of(value: u64) -> Vec<u8> {
    Counter { value }.encode_state()
}

fn request(method: HttpMethod, uri: &str, body: &[u8]) -> Request {
    Request { method, uri: uri.to_string(), body: body.to_vec() }
}

fn serve(state: &[u8], req: &Request) -> Served {
    let (ops, table, page) = counter_setup();
    handle_http::<Counter>(&ops, &table, &page, state, req)
}

fn param(name: &str, ty: ScalarType) -> Param {
    Param { name: name.to_string(), ty, structured: false }
}

#[test]
fn activation_round_trip_keeps_fields() {
    let types = vec![vec![], vec![ScalarType::U64, ScalarType::Bool, ScalarType::Text]];
    let args = vec![Scalar::U64(300), Scalar::Bool(true), Scalar::Text("héllo".to_string())];
    let bytes = encode_activation(1, &args);
    let (op, back) = decode_activation(&bytes, &types).expect("decodes");
    assert_eq!(op, 1);
    assert_eq!(back.len(), 3);
    assert!(matches!(back[0], Scalar::U64(300)));
    assert!(matches!(back[1], Scalar::Bool(true)));
    assert!(matches!(&back[2], Scalar::Text(s) if s == "héllo"));
}

#[test]
fn activation_round_trip_large_numbers() {
    let types = vec![vec![ScalarType::U64, ScalarType::U64]];
    let args = vec![Scalar::U64(u64::MAX), Scalar::U64(0)];
    let bytes = encode_activation(0, &args);
    let (op, back) = decode_activation(&bytes, &types).expect("decodes");
    assert_eq!(op, 0);
    assert!(matches!(back[0], Scalar::U64(u64::MAX)));
    assert!(matches!(back[1], Scalar::U64(0)));
}

#[test]
fn activation_with_unknown_operation_is_refused() {
    let types = vec![vec![]];
    let bytes = encode_activation(3, &vec![]);
    assert!(decode_activation(&bytes, &types).is_none());
}

#[test]
fn empty_union_decodes_nothing() {
    let types: Vec<Vec<ScalarType>> = vec![];
    let bytes = encode_activation(0, &vec![]);
    assert!(decode_activation(&bytes, &types).is_none());
}

#[test]
fn encoded_value_uses_bincode_varint() {
    assert_eq!(encode_value(&Scalar::U64(5)), vec![5u8]);
    assert_eq!(encode_value(&Scalar::U64(300)), vec![251u8, 44, 1]);
    assert_eq!(encode_value(&Scalar::Bool(true)), vec![1u8]);
    assert_eq!(encode_value(&Scalar::Text("ab".to_string())), vec![2u8, b'a', b'b']);
}

#[test]
fn binary_dispatch_matches_direct_call() {
    let input = encode_activation(SET_COUNTER as u32, &vec![Scalar::U64(5)]);
    let done = activate::<Counter>(&state_of(1), &input).expect("activates");
    assert!(done.output.is_empty());
    assert_eq!(done.state, state_of(5));

    let input = encode_activation(GET_COUNTER as u32, &vec![]);
    let done = activate::<Counter>(&state_of(9), &input).expect("activates");
    assert_eq!(done.output, encode_value(&Scalar::U64(9)));
    assert_eq!(done.state, state_of(9));
}

#[test]
fn binary_dispatch_aborts_on_bad_state_or_call() {
    let input = encode_activation(GET_COUNTER as u32, &vec![]);
    assert!(activate::<Counter>(&[], &input).is_none());
    assert!(activate::<Counter>(&state_of(1), &[7u8]).is_none());
}

#[test]
fn first_matching_route_wins() {
    let table = RouteTable {
        entries: vec![
            RouteEntry { method: HttpMethod::Get, path: "/a".to_string(), target: Target::Operation(0) },
            RouteEntry { method: HttpMethod::Get, path: "/a".to_string(), target: Target::Operation(1) },
            RouteEntry { method: HttpMethod::Post, path: "/a".to_string(), target: Target::Operation(2) },
        ],
    };
    assert_eq!(table.find(HttpMethod::Get, "/a"), Target::Operation(0));
    assert_eq!(table.find(HttpMethod::Post, "/a"), Target::Operation(2));
    assert_eq!(table.find(HttpMethod::Get, "/b"), Target::NotFound);
}

#[test]
fn route_table_lists_routes_then_docs() {
    let (ops, table, _) = counter_setup();
    assert_eq!(ops.len(), 2);
    assert_eq!(table.entries.len(), 3);
    assert_eq!(table.find(HttpMethod::Post, "/set"), Target::Operation(SET_COUNTER));
    assert_eq!(table.find(HttpMethod::Get, "/get"), Target::Operation(GET_COUNTER));
    assert_eq!(table.find(HttpMethod::Get, "/"), Target::Docs);
    assert_eq!(table.find(HttpMethod::Post, "/"), Target::NotFound);
}

#[test]
fn wrong_method_falls_through_to_not_found() {
    let served = serve(&state_of(1), &request(HttpMethod::Get, "/set?value=3", b""));
    assert_eq!(served.response.status, 404);
    assert!(served.response.body.is_empty());
    assert!(served.state.is_none());
    let served = serve(&state_of(1), &request(HttpMethod::Post, "/get", b"{}"));
    assert_eq!(served.response.status, 404);
}

#[test]
fn set_then_get_counter() {
    let served = serve(&state_of(0), &request(HttpMethod::Post, "/set", br#"{"value": 5}"#));
    assert_eq!(served.response.status, 204);
    assert!(served.response.body.is_empty());
    let state = served.state.expect("state written");
    assert_eq!(state, state_of(5));

    let served = serve(&state, &request(HttpMethod::Get, "/get", b""));
    assert_eq!(served.response.status, 200);
    assert_eq!(served.response.body, b"5".to_vec());
    let value: u64 = serde_json::from_slice(&served.response.body).unwrap();
    assert_eq!(value, 5);
}

#[test]
fn unknown_path_is_not_found() {
    let served = serve(&state_of(0), &request(HttpMethod::Get, "/nonexistent", b""));
    assert_eq!(served.response.status, 404);
    assert!(served.response.body.is_empty());
    assert!(served.response.headers.is_empty());
    assert!(served.state.is_none());
}

#[test]
fn malformed_post_body_is_bad_request() {
    let served = serve(&state_of(4), &request(HttpMethod::Post, "/set", b"not json"));
    assert_eq!(served.response.status, 400);
    assert!(!served.response.body.is_empty());
    let text = String::from_utf8(served.response.body.clone()).unwrap();
    let expected = serde_json::from_slice::<serde_json::Value>(b"not json").unwrap_err();
    assert_eq!(text, format!("{:?}", expected));
    assert!(text.starts_with("Error("));
    assert!(served.state.is_none());
}

#[test]
fn post_body_with_wrong_field_type_is_bad_request() {
    let served = serve(&state_of(4), &request(HttpMethod::Post, "/set", br#"{"value": "five"}"#));
    assert_eq!(served.response.status, 400);
    assert_eq!(served.response.body, b"missing or invalid field `value`".to_vec());
    assert!(served.state.is_none());
    let served = serve(&state_of(4), &request(HttpMethod::Post, "/set", br#"{"other": 5}"#));
    assert_eq!(served.response.status, 400);
}

#[test]
fn docs_page_is_served_at_root() {
    let served = serve(&state_of(0), &request(HttpMethod::Get, "/", b""));
    assert_eq!(served.response.status, 200);
    let text = String::from_utf8(served.response.body).unwrap();
    assert!(text.contains("<code>POST /set</code>"));
    assert!(text.contains("<code>GET /get</code>"));
    assert!(text.contains("<li><code>value: u64</code></li>"));
    assert!(text.contains("<p>returns <code>u64</code></p>"));
    assert!(text.contains("<title>counter 0.1.0</title>"));
}

#[test]
fn docs_page_shows_description() {
    let ops: Vec<Operation> = vec![];
    let page = render_docs("m", "1", &Some("About it.".to_string()), &ops);
    assert_eq!(
        page,
        "<!DOCTYPE html><html><head><title>m 1</title></head><body><h1>m 1</h1><p>About it.</p></body></html>"
    );
}

#[test]
fn failed_self_call_is_server_error() {
    let (ops, _, _) = counter_setup();
    let outcome: Result<Vec<u8>, String> = Err("trap".to_string());
    let resp = finish_http(&ops, GET_COUNTER, &outcome).unwrap();
    assert_eq!(resp.status, 500);
    let text = String::from_utf8(resp.body).unwrap();
    assert_eq!(text, "HTTP handler failed to self-activate get_counter via Get, /get: trap");
}

#[test]
fn undecodable_output_aborts() {
    let (ops, _, _) = counter_setup();
    let outcome: Result<Vec<u8>, String> = Ok(vec![]);
    assert!(finish_http(&ops, GET_COUNTER, &outcome).is_none());
}

#[test]
fn begin_http_encodes_the_call() {
    let (ops, table, page) = counter_setup();
    let step = begin_http(&ops, &table, &page, &request(HttpMethod::Post, "/set", br#"{"value": 7}"#));
    match step {
        HttpStep::Call { op, input } => {
            assert_eq!(op, SET_COUNTER);
            assert_eq!(input, encode_activation(SET_COUNTER as u32, &vec![Scalar::U64(7)]));
        }
        HttpStep::Respond(_) => panic!("expected a call"),
    }
}

#[test]
fn query_arguments_decode() {
    let params = vec![param("n", ScalarType::U64), param("flag", ScalarType::Bool), param("s", ScalarType::Text)];
    let args = decode_query(&params, "s=a%20b&n=42&flag=true").unwrap();
    assert!(matches!(args[0], Scalar::U64(42)));
    assert!(matches!(args[1], Scalar::Bool(true)));
    assert!(matches!(&args[2], Scalar::Text(s) if s == "a b"));
}

#[test]
fn query_missing_or_bad_field_is_refused() {
    let params = vec![param("n", ScalarType::U64)];
    assert_eq!(decode_query(&params, "").unwrap_err(), "missing or invalid field `n`");
    assert!(decode_query(&params, "n=x").is_err());
    assert!(decode_query(&params, "n=1&n=2").is_err());
    let flags = vec![param("b", ScalarType::Bool)];
    assert!(decode_query(&flags, "b=yes").is_err());
    assert!(matches!(decode_query(&flags, "b=false").unwrap()[0], Scalar::Bool(false)));
}

#[test]
fn json_body_arguments_decode() {
    let params = vec![param("n", ScalarType::U64), param("s", ScalarType::Text)];
    let args = decode_json_body(&params, br#"{"s": "x", "n": 3, "extra": null}"#).unwrap();
    assert!(matches!(args[0], Scalar::U64(3)));
    assert!(matches!(&args[1], Scalar::Text(s) if s == "x"));
    assert!(decode_json_body(&params, b"[").is_err());
}

#[test]
fn result_json_is_structured() {
    assert_eq!(result_json(&Scalar::U64(5)), b"5".to_vec());
    assert_eq!(result_json(&Scalar::Bool(false)), b"false".to_vec());
    assert_eq!(result_json(&Scalar::Text("hi".to_string())), b"\"hi\"".to_vec());
}

#[test]
fn uri_splits_at_first_question_mark() {
    assert_eq!(split_uri("/get?a=1?b"), ("/get".to_string(), "a=1?b".to_string()));
    assert_eq!(split_uri("/get"), ("/get".to_string(), String::new()));
    assert_eq!(split_uri("?x"), (String::new(), "x".to_string()));
}

fn decl(name: &str, args: Vec<ArgShape>, http: Option<(HttpMethod, Option<String>)>) -> MethodDecl {
    MethodDecl {
        name: name.to_string(),
        args,
        returns: None,
        doc_lines: vec![],
        activate: true,
        http,
    }
}

fn named(name: &str, attrs: &[&str]) -> ArgShape {
    ArgShape::Named {
        name: name.to_string(),
        ty: ScalarType::U64,
        attrs: attrs.iter().map(|a| a.to_string()).collect(),
    }
}

#[test]
fn schema_describes_marked_methods() {
    let mut skipped = decl("helper", vec![ArgShape::Pattern], None);
    skipped.activate = false;
    let mut documented = decl(
        "set_counter",
        vec![ArgShape::Receiver, named("cap", &[]), named("value", &["with_serde"])],
        Some((HttpMethod::Post, None)),
    );
    documented.doc_lines = vec!["Sets it.".to_string(), "Twice.".to_string()];
    let plain = decl("ping", vec![ArgShape::Receiver], Some((HttpMethod::Get, Some("/p".to_string()))));
    let ops = extract_schema(&vec![skipped, documented, plain]).unwrap();
    assert_eq!(ops.len(), 2);
    assert_eq!(ops[0].name, "set_counter");
    assert_eq!(ops[0].variant, "SetCounter");
    assert_eq!(ops[0].params.len(), 1);
    assert_eq!(ops[0].params[0].name, "value");
    assert!(ops[0].params[0].structured);
    assert_eq!(ops[0].docs.as_deref(), Some("Sets it.\nTwice."));
    let route = ops[0].route.as_ref().unwrap();
    assert_eq!(route.path, "/activate/set_counter");
    assert_eq!(route.method, HttpMethod::Post);
    assert_eq!(ops[1].route.as_ref().unwrap().path, "/p");
    assert!(ops[1].docs.is_none());
    assert_eq!(activation_names(&ops), vec!["set_counter".to_string(), "ping".to_string()]);
}

#[test]
fn schema_errors_fail_the_build() {
    let cases = vec![
        (vec![], SchemaError::MissingReceiver),
        (vec![named("x", &[])], SchemaError::MissingReceiver),
        (vec![ArgShape::Receiver, named("x", &[])], SchemaError::CapabilityExpected),
        (vec![ArgShape::Receiver, ArgShape::Pattern], SchemaError::NotPlainArgument),
        (vec![ArgShape::Receiver, named("_cap", &[]), named("x", &["skip"])], SchemaError::UnknownAttribute),
    ];
    for (args, err) in cases {
        let good = decl("ok", vec![ArgShape::Receiver], None);
        assert_eq!(extract_schema(&vec![good, decl("bad", args, None)]).unwrap_err(), err);
    }
}

#[test]
fn docs_lines_join() {
    assert_eq!(extract_docs(&vec![]), None);
    assert_eq!(extract_docs(&vec!["a".to_string()]), Some("a".to_string()));
    assert_eq!(extract_docs(&vec!["a".to_string(), "b".to_string()]), Some("a\nb".to_string()));
}

#[test]
fn route_of_operation_is_kept() {
    let ops = vec![Operation {
        name: "f".to_string(),
        variant: "F".to_string(),
        params: vec![],
        returns: None,
        docs: None,
        route: Some(Route { method: HttpMethod::Get, path: "/f".to_string() }),
    }];
    let table = RouteTable::build(&ops);
    assert_eq!(table.find(HttpMethod::Get, "/f"), Target::Operation(0));
}

#[test]
fn machine_builds_interface() {
    let mut set = decl(
        "set_counter",
        vec![ArgShape::Receiver, named("cap", &[]), named("value", &[])],
        Some((HttpMethod::Post, Some("/set".to_string()))),
    );
    set.doc_lines = vec!["Sets the counter.".to_string()];
    let mut get = decl("get_counter", vec![ArgShape::Receiver, named("_cap", &[])], Some((HttpMethod::Get, Some("/get".to_string()))));
    get.returns = Some(ScalarType::U64);
    let iface = machine(&vec!["A counter.".to_string()], &vec![set, get], "counter", "0.1.0").unwrap();
    assert_eq!(iface.operations.len(), 2);
    assert_eq!(iface.routes.find(HttpMethod::Post, "/set"), Target::Operation(0));
    let page = String::from_utf8(iface.docs_page.clone()).unwrap();
    assert!(page.contains("<h1>counter 0.1.0</h1><p>A counter.</p>"));
    assert!(page.contains("<p>Sets the counter.</p>"));

    let req = request(HttpMethod::Post, "/set", br#"{"value": 12}"#);
    let served = handle_http::<Counter>(&iface.operations, &iface.routes, &iface.docs_page, &state_of(0), &req);
    assert_eq!(served.response.status, 204);
    assert_eq!(served.state, Some(state_of(12)));
}

#[test]
fn machine_refuses_malformed_method() {
    let bad = decl("f", vec![ArgShape::Receiver, named("x", &[])], None);
    assert_eq!(machine(&vec![], &vec![bad], "m", "1").err(), Some(SchemaError::CapabilityExpected));
}

#[test]
fn failed_self_call_over_http_is_server_error() {
    let served = serve(&[], &request(HttpMethod::Get, "/get", b""));
    assert_eq!(served.response.status, 500);
    assert!(served.state.is_none());
    let text = String::from_utf8(served.response.body).unwrap();
    assert_eq!(
        text,
        "HTTP handler failed to self-activate get_counter via Get, /get: the machine state or the call did not decode"
    );
}

#[test]
fn json_body_that_is_not_an_object_is_refused() {
    let params = vec![param("n", ScalarType::U64)];
    let err = decode_json_body(&params, b"[5]").unwrap_err();
    assert!(err.starts_with("Error("));
    let err = decode_json_body(&params, br#"{"n": -1}"#).unwrap_err();
    assert_eq!(err, "missing or invalid field `n`");
}

#[test]
fn text_with_oversized_length_prefix_is_refused() {
    let types = vec![vec![ScalarType::Text]];
    let mut bytes = encode_activation(0, &vec![]);
    bytes.extend_from_slice(&[253, 0xFF, 0xFF, 0xFF, 0xFF, 0xFF, 0xFF, 0xFF, 0xFF]);
    assert!(decode_activation(&bytes, &types).is_none());
}

#[test]
fn too_short_text_is_refused() {
    let types = vec![vec![ScalarType::Text]];
    let mut bytes = encode_activation(0, &vec![]);
    bytes.extend_from_slice(&[5, b'a']);
    assert!(decode_activation(&bytes, &types).is_none());
}
