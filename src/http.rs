use vstd::prelude::*;

use crate::codec::{activation_bytes, decode_value_at, encode_activation, value_bytes};
use crate::machine::{activate, output_bytes, Machine};
use crate::form::{
    bad_query_text, decode_query, form_args, form_complete, form_missing, form_pairs_of,
    lemma_form_args_typed, lemma_form_args_unique,
};
use crate::json::{
    decode_json_body, json_args, json_bytes_of, json_complete, json_missing, json_object_of,
    lemma_json_args_typed, lemma_json_args_unique, result_json, JsonFieldView,
};
use crate::routes::{
    docs_path, entry_matches, first_match, lemma_catch_all_only_when_unmatched, operation_routes,
    routes_of, RouteTable, Target,
};
use crate::scalar::{type_of, values_view, well_typed, ScalarType, ScalarView};
use crate::schema::{param_types, Operation, Param};
use crate::HttpMethod;

verus! {

/// An incoming HTTP request.
#[derive(Clone, Debug)]
pub struct Request {
    pub method: HttpMethod,
    /// The path, then optionally `?` and a query string.
    pub uri: String,
    pub body: Vec<u8>,
}

/// An HTTP response.
#[derive(Clone, Debug)]
pub struct Response {
    pub status: u16,
    pub headers: Vec<(String, String)>,
    pub body: Vec<u8>,
}

/// What the bridge does next with a request.
pub enum HttpStep {
    /// Answer at once.
    Respond(Response),
    /// Run operation `op` through direct activation with the encoded call
    /// `input`, then finish with [`finish_http`].
    Call { op: usize, input: Vec<u8> },
}

/// The index of the first `?` of `u`, or its length where it has none.
pub open spec fn query_start(u: Seq<char>) -> nat
    decreases u.len(),
{
    if u.len() == 0 {
        0
    } else if u[0] == '?' {
        0
    } else {
        1 + query_start(u.drop_first())
    }
}

/// The path of a request target: everything before the first `?`.
pub open spec fn uri_path(u: Seq<char>) -> Seq<char> {
    u.take(query_start(u) as int)
}

/// The query of a request target: everything after the first `?`.
pub open spec fn uri_query(u: Seq<char>) -> Seq<char> {
    if query_start(u) < u.len() {
        u.skip(query_start(u) as int + 1)
    } else {
        Seq::empty()
    }
}

proof fn lemma_query_start(u: Seq<char>, i: int)
    requires
        0 <= i <= u.len(),
        forall|j: int| 0 <= j < i ==> u[j] != '?',
        i == u.len() || u[i] == '?',
    ensures
        query_start(u) == i,
    decreases i,
{
    if i > 0 {
        let rest = u.drop_first();
        assert forall|j: int| 0 <= j < i - 1 implies rest[j] != '?' by {
            assert(rest[j] == u[j + 1]);
        }
        if i < u.len() {
            assert(rest[i - 1] == u[i]);
        }
        lemma_query_start(rest, i - 1);
    }
}

/// Splits a request target into its path and its query.
pub fn split_uri(uri: &str) -> (r: (String, String))
    ensures
        r.0@ == uri_path(uri@),
        r.1@ == uri_query(uri@),
{
    let n = uri.unicode_len();
    let mut i: usize = 0;
    let mut found = false;
    while i < n && !found
        invariant
            n == uri@.len(),
            i <= n,
            forall|j: int| 0 <= j < i ==> uri@[j] != '?',
            found ==> i < n && uri@[i as int] == '?',
        decreases n - i + if found { 0int } else { 1int },
    {
        if uri.get_char(i) == '?' {
            found = true;
        } else {
            i = i + 1;
        }
    }
    proof {
        lemma_query_start(uri@, i as int);
    }
    let path = uri.substring_char(0, i).to_owned();
    let query = if i < n {
        uri.substring_char(i + 1, n).to_owned()
    } else {
        String::new()
    };
    assert(query@ =~= uri_query(uri@));
    (path, query)
}

/// A response with no headers.
pub open spec fn is_response(r: Response, status: u16, body: Seq<u8>) -> bool {
    r.status == status && r.headers@.len() == 0 && r.body@ == body
}

/// A response with no headers and a non-empty body.
pub open spec fn is_failure(r: Response, status: u16) -> bool {
    r.status == status && r.headers@.len() == 0 && r.body@.len() > 0
}

/// Where a request for `method` on `uri` goes in the table of `ops`.
pub open spec fn target_of(ops: Seq<Operation>, method: HttpMethod, uri: Seq<char>) -> Target {
    first_match(routes_of(ops), method, uri_path(uri))
}

/// Operation `i` of `ops` is routed at `method` and `path`.
pub open spec fn routed_as(ops: Seq<Operation>, i: int, method: HttpMethod, path: Seq<char>) -> bool {
    &&& 0 <= i < ops.len()
    &&& match ops[i].route {
        Some(r) => r.method == method && r.path@ == path,
        None => false,
    }
}

/// Every entry of the routes of the first `n` operations targets a routed
/// operation among them, with that operation's method and path.
proof fn lemma_operation_route_targets(ops: Seq<Operation>, n: int)
    requires
        0 <= n <= ops.len() <= usize::MAX,
    ensures
        forall|k: int|
            0 <= k < operation_routes(ops, n).len() ==> {
                let e = #[trigger] operation_routes(ops, n)[k];
                match e.2 {
                    Target::Operation(i) => i < n && routed_as(ops, i as int, e.0, e.1),
                    _ => false,
                }
            },
    decreases n,
{
    if n > 0 {
        lemma_operation_route_targets(ops, n - 1);
        let before = operation_routes(ops, n - 1);
        assert forall|k: int| 0 <= k < before.len() implies operation_routes(ops, n)[k] == before[k] by {
            match ops[n - 1].route {
                Some(r) => {},
                None => {},
            }
        }
    }
}

/// A target other than the catch-all is the target of a matching entry.
proof fn lemma_first_match_entry(
    entries: Seq<(HttpMethod, Seq<char>, Target)>,
    method: HttpMethod,
    path: Seq<char>,
)
    ensures
        first_match(entries, method, path) == Target::NotFound || exists|k: int|
            0 <= k < entries.len() && entry_matches(#[trigger] entries[k], method, path)
                && entries[k].2 == first_match(entries, method, path),
    decreases entries.len(),
{
    if entries.len() > 0 && !entry_matches(entries[0], method, path) {
        let rest = entries.drop_first();
        lemma_first_match_entry(rest, method, path);
        if first_match(rest, method, path) != Target::NotFound {
            let k = choose|k: int|
                0 <= k < rest.len() && entry_matches(#[trigger] rest[k], method, path) && rest[k].2
                    == first_match(rest, method, path);
            assert(entries[k + 1] == rest[k]);
        }
    } else if entries.len() > 0 {
        assert(entry_matches(entries[0], method, path));
    }
}

/// A request for an operation goes to a routed operation of that method and
/// path.
pub proof fn lemma_target_is_routed(ops: Seq<Operation>, method: HttpMethod, uri: Seq<char>)
    requires
        ops.len() <= usize::MAX,
    ensures
        match target_of(ops, method, uri) {
            Target::Operation(i) => routed_as(ops, i as int, method, uri_path(uri)),
            _ => true,
        },
{
    let entries = routes_of(ops);
    lemma_first_match_entry(entries, method, uri_path(uri));
    lemma_operation_route_targets(ops, ops.len() as int);
    if target_of(ops, method, uri) != Target::NotFound {
        let k = choose|k: int|
            0 <= k < entries.len() && entry_matches(#[trigger] entries[k], method, uri_path(uri))
                && entries[k].2 == target_of(ops, method, uri);
        let n = operation_routes(ops, ops.len() as int).len();
        if k < n {
            assert(entries[k] == operation_routes(ops, ops.len() as int)[k]);
        }
    }
}

/// In a table built from operations, the catch-all fires exactly when no
/// entry matches the request.
pub proof fn lemma_built_table_catch_all(ops: Seq<Operation>, method: HttpMethod, path: Seq<char>)
    requires
        ops.len() <= usize::MAX,
    ensures
        (first_match(routes_of(ops), method, path) == Target::NotFound) == (forall|k: int|
            0 <= k < routes_of(ops).len() ==> !entry_matches(#[trigger] routes_of(ops)[k], method, path)),
{
    let entries = routes_of(ops);
    let n = operation_routes(ops, ops.len() as int).len();
    lemma_operation_route_targets(ops, ops.len() as int);
    assert forall|k: int| 0 <= k < entries.len() implies (#[trigger] entries[k]).2 != Target::NotFound by {
        if k < n {
            assert(entries[k] == operation_routes(ops, ops.len() as int)[k]);
        }
    }
    lemma_catch_all_only_when_unmatched(entries, method, path);
}

/// A request that no operation is routed at, by method and path, and that is
/// not GET "/", is not found: a GET on a path routed only for POST, or the
/// reverse, falls through to the catch-all.
pub proof fn lemma_unrouted_request_not_found(ops: Seq<Operation>, method: HttpMethod, uri: Seq<char>)
    requires
        ops.len() <= usize::MAX,
        forall|i: int| 0 <= i < ops.len() ==> !routed_as(ops, i, method, uri_path(uri)),
        !(method == HttpMethod::Get && uri_path(uri) == docs_path()),
    ensures
        target_of(ops, method, uri) == Target::NotFound,
{
    let entries = routes_of(ops);
    let n = operation_routes(ops, ops.len() as int).len();
    lemma_operation_route_targets(ops, ops.len() as int);
    lemma_built_table_catch_all(ops, method, uri_path(uri));
    assert forall|k: int| 0 <= k < entries.len() implies !entry_matches(#[trigger] entries[k], method, uri_path(uri)) by {
        if k < n {
            assert(entries[k] == operation_routes(ops, ops.len() as int)[k]);
        }
    }
}

/// The step answers at once with `status`, no headers and `body`.
pub open spec fn responds(step: HttpStep, status: u16, body: Seq<u8>) -> bool {
    match step {
        HttpStep::Respond(r) => is_response(r, status, body),
        _ => false,
    }
}

/// The step refuses the request with 400 and the UTF-8 text `msg`.
pub open spec fn refuses(step: HttpStep, msg: Seq<char>) -> bool {
    responds(step, 400, vstd::utf8::encode_utf8(msg))
}

/// The step calls operation `op` with the fields that `pairs` gives.
pub open spec fn calls_with_form(
    step: HttpStep,
    op: usize,
    pairs: Seq<(Seq<char>, Seq<char>)>,
    params: Seq<Param>,
) -> bool {
    match step {
        HttpStep::Call { op: o, input } => o == op && exists|args: Seq<ScalarView>|
            form_args(pairs, params, args) && input@ == #[trigger] activation_bytes(op as u32, args),
        _ => false,
    }
}

/// The step calls operation `op` with the members that `fields` gives.
pub open spec fn calls_with_json(
    step: HttpStep,
    op: usize,
    fields: Seq<(Seq<char>, JsonFieldView)>,
    params: Seq<Param>,
) -> bool {
    match step {
        HttpStep::Call { op: o, input } => o == op && exists|args: Seq<ScalarView>|
            json_args(fields, params, args) && input@ == #[trigger] activation_bytes(op as u32, args),
        _ => false,
    }
}

/// A non-empty text has a non-empty UTF-8 encoding.
proof fn lemma_utf8_nonempty(chars: Seq<char>)
    requires
        chars.len() > 0,
    ensures
        vstd::utf8::encode_utf8(chars).len() > 0,
{
    vstd::utf8::encode_utf8_decode_utf8(chars);
    vstd::utf8::encode_utf8_valid_utf8(chars);
    if vstd::utf8::encode_utf8(chars).len() == 0 {
        assert(vstd::utf8::decode_utf8(vstd::utf8::encode_utf8(chars)).len() == 0);
    }
}

/// A response with no headers whose body is the UTF-8 text of `msg`.
fn failure(status: u16, msg: &String) -> (r: Response)
    requires
        msg@.len() > 0,
    ensures
        is_failure(r, status),
        r.body@ == vstd::utf8::encode_utf8(msg@),
{
    let body = msg.as_str().as_bytes_vec();
    proof {
        lemma_utf8_nonempty(msg@);
    }
    Response { status, headers: Vec::new(), body }
}

/// First half of serving a request: finds its route and answers at once
/// (not found, documentation page, arguments that do not decode), or
/// decodes the arguments (from the query for GET, from the body for POST)
/// and hands back the encoded call to run.
pub fn begin_http(ops: &Vec<Operation>, table: &RouteTable, docs_page: &Vec<u8>, req: &Request) -> (r: HttpStep)
    requires
        table.view_entries() == routes_of(ops@),
        ops@.len() <= u32::MAX,
    ensures
        match target_of(ops@, req.method, req.uri@) {
            Target::NotFound => responds(r, 404, Seq::empty()),
            Target::Docs => responds(r, 200, docs_page@),
            Target::Operation(i) => match req.method {
                HttpMethod::Get => match form_pairs_of(uri_query(req.uri@)) {
                    None => refuses(r, bad_query_text()),
                    Some(pairs) => if form_complete(pairs, ops@[i as int].params@) {
                        calls_with_form(r, i, pairs, ops@[i as int].params@)
                    } else {
                        exists|m: Seq<char>|
                            form_missing(pairs, ops@[i as int].params@, m) && #[trigger] refuses(r, m)
                    },
                },
                HttpMethod::Post => match json_object_of(req.body@) {
                    Err(e) => refuses(r, e),
                    Ok(fields) => if json_complete(fields, ops@[i as int].params@) {
                        calls_with_json(r, i, fields, ops@[i as int].params@)
                    } else {
                        exists|m: Seq<char>|
                            json_missing(fields, ops@[i as int].params@, m) && #[trigger] refuses(r, m)
                    },
                },
            },
        },
{
    let (path, query) = split_uri(req.uri.as_str());
    let t = table.find(req.method, path.as_str());
    proof {
        lemma_target_is_routed(ops@, req.method, req.uri@);
    }
    match t {
        Target::NotFound => HttpStep::Respond(
            Response { status: 404, headers: Vec::new(), body: Vec::new() },
        ),
        Target::Docs => HttpStep::Respond(
            Response { status: 200, headers: Vec::new(), body: docs_page.clone() },
        ),
        Target::Operation(i) => {
            let op = &ops[i];
            let decoded = match req.method {
                HttpMethod::Get => decode_query(&op.params, query.as_str()),
                HttpMethod::Post => decode_json_body(&op.params, req.body.as_slice()),
            };
            match decoded {
                Err(m) => {
                    let resp = failure(400, &m);
                    let r = HttpStep::Respond(resp);
                    assert(refuses(r, m@));
                    r
                },
                Ok(args) => {
                    let input = encode_activation(i as u32, &args);
                    assert(input@ == activation_bytes(i as u32, values_view(args@)));
                    HttpStep::Call { op: i, input }
                },
            }
        },
    }
}

/// The name of an HTTP method in a failure message.
pub open spec fn verb_text(m: HttpMethod) -> Seq<char> {
    match m {
        HttpMethod::Get => "Get"@,
        HttpMethod::Post => "Post"@,
    }
}

fn verb_name(m: HttpMethod) -> (r: String)
    ensures
        r@ == verb_text(m),
{
    match m {
        HttpMethod::Get => "Get".to_owned(),
        HttpMethod::Post => "Post".to_owned(),
    }
}

/// The method of an operation's route, `Get` where it has none.
pub open spec fn route_method_of(op: Operation) -> HttpMethod {
    match op.route {
        Some(rt) => rt.method,
        None => HttpMethod::Get,
    }
}

/// The path of an operation's route, empty where it has none.
pub open spec fn route_path_of(op: Operation) -> Seq<char> {
    match op.route {
        Some(rt) => rt.path@,
        None => Seq::empty(),
    }
}

/// The message of a response to a failed self-call of operation `op`.
pub open spec fn self_call_failure_text(op: Operation, detail: Seq<char>) -> Seq<char> {
    "HTTP handler failed to self-activate "@ + op.name@ + " via "@ + verb_text(route_method_of(op))
        + ", "@ + route_path_of(op) + ": "@ + detail
}

/// Second half of serving a request: turns the outcome of running
/// operation `op` into a response. A failed run gives 500 with a message
/// naming the operation and its route; an operation without a result gives
/// 204; one with a result gives 200 and the result as JSON. `None` means the
/// output does not decode as the declared result type, an internal
/// inconsistency that aborts the call.
pub fn finish_http(ops: &Vec<Operation>, op: usize, outcome: &Result<Vec<u8>, String>) -> (r: Option<Response>)
    requires
        op < ops@.len(),
    ensures
        match outcome {
            Err(e) => r matches Some(resp) && is_failure(resp, 500) && resp.body@
                == vstd::utf8::encode_utf8(self_call_failure_text(ops@[op as int], e@)),
            Ok(out) => match ops@[op as int].returns {
                None => r matches Some(resp) && is_response(resp, 204, Seq::empty()),
                Some(ty) => (forall|v: ScalarView, rest: Seq<u8>|
                    type_of(v) == ty && out@ == #[trigger] (value_bytes(v) + rest) ==> (r matches Some(
                        resp,
                    ) && is_response(resp, 200, json_bytes_of(v)))) && (r matches Some(resp)
                    ==> resp.status == 200 && resp.headers@.len() == 0),
            },
        },
{
    match outcome {
        Err(e) => {
            let msg = "HTTP handler failed to self-activate ".to_owned().concat(
                ops[op].name.as_str(),
            ).concat(" via ").concat(verb_name(ops[op].route_method()).as_str()).concat(
                ", ",
            ).concat(ops[op].route_path().as_str()).concat(": ").concat(e.as_str());
            proof {
                reveal_strlit("HTTP handler failed to self-activate ");
                assert(msg@.len() > 0);
            }
            Some(failure(500, &msg))
        },
        Ok(out) => match ops[op].returns {
            None => Some(Response { status: 204, headers: Vec::new(), body: Vec::new() }),
            Some(ty) => {
                let d = decode_value_at(out.as_slice(), 0, ty);
                proof {
                    assert(crate::codec::from_offset(out@, 0) =~= out@);
                }
                match d {
                    Some((v, _)) => Some(
                        Response { status: 200, headers: Vec::new(), body: result_json(&v) },
                    ),
                    None => None,
                }
            },
        },
    }
}

/// What serving a request leaves: the response, and the encoded state after
/// the operation ran, or `None` where no operation ran.
pub struct Served {
    pub response: Response,
    pub state: Option<Vec<u8>>,
}

/// The response owed for an operation declared to return `t` that gave `v`.
pub open spec fn result_response(resp: Response, t: Option<ScalarType>, v: Option<ScalarView>) -> bool {
    match (t, v) {
        (None, _) => is_response(resp, 204, Seq::empty()),
        (Some(_), Some(x)) => is_response(resp, 200, json_bytes_of(x)),
        (Some(_), None) => false,
    }
}

/// The request was answered at once with `status` and `body`; no operation ran.
pub open spec fn answered(r: Served, status: u16, body: Seq<u8>) -> bool {
    is_response(r.response, status, body) && r.state is None
}

/// The request was refused with 400 and the UTF-8 text `msg`; no operation ran.
pub open spec fn refused(r: Served, msg: Seq<char>) -> bool {
    answered(r, 400, vstd::utf8::encode_utf8(msg))
}

/// Operation `op` ran on `args` against the state `m`: the response carries
/// its result and the new state is the encoding of the state it left.
pub open spec fn ran<M: Machine>(r: Served, m: M, op: int, args: Seq<ScalarView>, t: Option<ScalarType>) -> bool {
    match r.state {
        Some(st) => st@ == m.spec_call(op, args).0.state_bytes() && result_response(
            r.response,
            t,
            m.spec_call(op, args).1,
        ),
        None => false,
    }
}

/// The detail of a self-call that failed.
pub open spec fn self_call_detail() -> Seq<char> {
    "the machine state or the call did not decode"@
}

/// The self-call of operation `op` failed: 500 naming it, no state.
pub open spec fn self_call_failed(r: Served, op: Operation) -> bool {
    answered(r, 500, vstd::utf8::encode_utf8(self_call_failure_text(op, self_call_detail())))
}

/// Operation `op` was called on `args`: against a state that decodes as `m`
/// it ran on `m`; otherwise it ran on some state, or the self-call failed.
pub open spec fn served_call<M: Machine>(r: Served, ops: Seq<Operation>, op: int, state: Seq<u8>, args: Seq<ScalarView>) -> bool {
    &&& forall|m: M, rest: Seq<u8>|
        state == #[trigger] (m.state_bytes() + rest) ==> ran(r, m, op, args, ops[op].returns)
    &&& (exists|m: M| #[trigger] ran(r, m, op, args, ops[op].returns)) || self_call_failed(r, ops[op])
}

/// `ops` describes the operations of `M`.
pub open spec fn describes<M: Machine>(ops: Seq<Operation>) -> bool {
    &&& ops.len() == M::spec_op_count()
    &&& forall|i: int|
        0 <= i < ops.len() ==> param_types(#[trigger] ops[i]) == M::spec_param_types(i)
            && ops[i].returns == M::spec_returns(i)
}

/// Serves a request against the encoded state of machine `M`, running the
/// routed operation through direct activation.
pub fn handle_http<M: Machine>(
    ops: &Vec<Operation>,
    table: &RouteTable,
    docs_page: &Vec<u8>,
    state: &[u8],
    req: &Request,
) -> (r: Served)
    requires
        table.view_entries() == routes_of(ops@),
        ops@.len() <= u32::MAX,
        describes::<M>(ops@),
    ensures
        match target_of(ops@, req.method, req.uri@) {
            Target::NotFound => answered(r, 404, Seq::empty()),
            Target::Docs => answered(r, 200, docs_page@),
            Target::Operation(i) => match req.method {
                HttpMethod::Get => match form_pairs_of(uri_query(req.uri@)) {
                    None => refused(r, bad_query_text()),
                    Some(pairs) => if form_complete(pairs, ops@[i as int].params@) {
                        forall|args: Seq<ScalarView>|
                            #[trigger] form_args(pairs, ops@[i as int].params@, args) ==> served_call::<M>(
                                r,
                                ops@,
                                i as int,
                                state@,
                                args,
                            )
                    } else {
                        exists|m: Seq<char>|
                            form_missing(pairs, ops@[i as int].params@, m) && #[trigger] refused(r, m)
                    },
                },
                HttpMethod::Post => match json_object_of(req.body@) {
                    Err(e) => refused(r, e),
                    Ok(fields) => if json_complete(fields, ops@[i as int].params@) {
                        forall|args: Seq<ScalarView>|
                            #[trigger] json_args(fields, ops@[i as int].params@, args) ==> served_call::<M>(
                                r,
                                ops@,
                                i as int,
                                state@,
                                args,
                            )
                    } else {
                        exists|m: Seq<char>|
                            json_missing(fields, ops@[i as int].params@, m) && #[trigger] refused(r, m)
                    },
                },
            },
        },
{
    let step = begin_http(ops, table, docs_page, req);
    proof {
        lemma_target_is_routed(ops@, req.method, req.uri@);
    }
    match step {
        HttpStep::Respond(response) => {
            let r = Served { response, state: None };
            proof {
                if req.method == HttpMethod::Get {
                    if let Some(pairs) = form_pairs_of(uri_query(req.uri@)) {
                        if let Target::Operation(i) = target_of(ops@, req.method, req.uri@) {
                            if !form_complete(pairs, ops@[i as int].params@) {
                                let m = choose|m: Seq<char>|
                                    form_missing(pairs, ops@[i as int].params@, m) && #[trigger] refuses(step, m);
                                assert(refused(r, m));
                            }
                        }
                    }
                } else {
                    if let Ok(fields) = json_object_of(req.body@) {
                        if let Target::Operation(i) = target_of(ops@, req.method, req.uri@) {
                            if !json_complete(fields, ops@[i as int].params@) {
                                let m = choose|m: Seq<char>|
                                    json_missing(fields, ops@[i as int].params@, m) && #[trigger] refuses(step, m);
                                assert(refused(r, m));
                            }
                        }
                    }
                }
            }
            r
        },
        HttpStep::Call { op, input } => {
            let ghost tys = param_types(ops@[op as int]);
            let ghost params = ops@[op as int].params@;
            let ghost pairs = form_pairs_of(uri_query(req.uri@)).unwrap();
            let ghost fields = json_object_of(req.body@)->Ok_0;
            let ghost args0 = if req.method == HttpMethod::Get {
                choose|args: Seq<ScalarView>|
                    form_args(pairs, params, args) && input@ == #[trigger] activation_bytes(
                        op as u32,
                        args,
                    )
            } else {
                choose|args: Seq<ScalarView>|
                    json_args(fields, params, args) && input@ == #[trigger] activation_bytes(
                        op as u32,
                        args,
                    )
            };
            proof {
                assert(op < ops@.len());
                assert(tys == M::spec_param_types(op as int));
                if req.method == HttpMethod::Get {
                    lemma_form_args_typed(pairs, params, args0);
                } else {
                    lemma_json_args_typed(fields, params, args0);
                }
                assert(well_typed(tys, args0) && input@ == activation_bytes(op as u32, args0));
                assert(input@ == activation_bytes(op as u32, args0) + Seq::<u8>::empty());
            }
            let activated = activate::<M>(state, input.as_slice());
            let r = match activated {
                None => {
                    proof {
                        reveal_strlit("the machine state or the call did not decode");
                    }
                    let detail = "the machine state or the call did not decode".to_owned();
                    let fail: Result<Vec<u8>, String> = Err(detail);
                    let resp = finish_http(ops, op, &fail).unwrap();
                    Served { response: resp, state: None }
                },
                Some(a) => {
                    proof {
                        assert(exists|s: M|
                            a.state@ == s.spec_call(op as int, args0).0.state_bytes() && a.output@
                                == output_bytes(#[trigger] s.spec_call(op as int, args0).1));
                    }
                    let ghost s0 = choose|s: M|
                        a.state@ == s.spec_call(op as int, args0).0.state_bytes() && a.output@
                            == output_bytes(#[trigger] s.spec_call(op as int, args0).1);
                    let out: Result<Vec<u8>, String> = Ok(a.output);
                    proof {
                        s0.lemma_result_type(op as int, args0);
                        match s0.spec_call(op as int, args0).1 {
                            Some(v) => {
                                assert(a.output@ == value_bytes(v) + Seq::<u8>::empty());
                            },
                            None => {},
                        }
                    }
                    let resp = finish_http(ops, op, &out).unwrap();
                    let r = Served { response: resp, state: Some(a.state) };
                    proof {
                        assert(ran(r, s0, op as int, args0, ops@[op as int].returns));
                        assert forall|m: M, rest: Seq<u8>|
                            state@ == #[trigger] (m.state_bytes() + rest) implies ran(
                            r,
                            m,
                            op as int,
                            args0,
                            ops@[op as int].returns,
                        ) by {
                            m.lemma_result_type(op as int, args0);
                            match m.spec_call(op as int, args0).1 {
                                Some(v) => {
                                    assert(a.output@ == value_bytes(v) + Seq::<u8>::empty());
                                },
                                None => {},
                            }
                        }
                    }
                    r
                },
            };
            proof {
                assert(served_call::<M>(r, ops@, op as int, state@, args0));
                if req.method == HttpMethod::Get {
                    assert forall|args: Seq<ScalarView>| #[trigger]
                        form_args(pairs, params, args) implies args == args0 by {
                        lemma_form_args_unique(pairs, params, args, args0);
                    }
                } else {
                    assert forall|args: Seq<ScalarView>| #[trigger]
                        json_args(fields, params, args) implies args == args0 by {
                        lemma_json_args_unique(fields, params, args, args0);
                    }
                }
            }
            r
        },
    }
}

} // verus!
