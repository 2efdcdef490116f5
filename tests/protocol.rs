use ink_sandbox::command::{ContinueParams, DapCommand, InitParams};
use ink_sandbox::json::{JsonNumber, JsonValue};
use ink_sandbox::rpc::{JsonRpcRequest, JsonRpcResponse, RequestId, SandboxError};
use ink_sandbox::sandbox::{decode_exports, stop_on, Interrupt, Sandbox};
use ink_sandbox::session::{dispatch_request, handle_message, CliHandler, SessionState, Step};

fn s(v: &str) -> JsonValue {
    JsonValue::Str(v.to_string())
}

fn object(members: Vec<(&str, JsonValue)>) -> JsonValue {
    JsonValue::Object(members.into_iter().map(|(k, v)| (k.to_string(), v)).collect())
}

fn num(n: u64) -> JsonValue {
    JsonValue::Number(JsonNumber::Unsigned(n))
}

fn num_id(n: u64) -> Option<RequestId> {
    Some(RequestId::Number(JsonNumber::Unsigned(n)))
}

fn request(method: &str, params: Option<JsonValue>, id: u64) -> JsonValue {
    let mut m = vec![("jsonrpc", s("2.0")), ("method", s(method))];
    if let Some(p) = params {
        m.push(("params", p));
    }
    m.push(("id", num(id)));
    object(m)
}

fn program_bytes() -> Vec<u8> {
    polkavm::program::assemble(
        Some(polkavm::program::InstructionSetKind::Latest64),
        "pub @main:\n    a0 = 1\n    trap\n",
    )
    .unwrap()
}

fn reply(step: Step) -> JsonRpcResponse {
    match step {
        Step::Reply(r) => r,
        other => panic!("expected a reply, got {:?}", other),
    }
}

fn error_code(r: &JsonRpcResponse) -> i32 {
    r.error.as_ref().expect("an error response").code
}

fn initialized_handler() -> CliHandler {
    let mut handler = CliHandler::new();
    let step = handle_message(&mut handler, Some(request("initialize", Some(object(vec![("path", s("/p/flipper.polkavm"))])), 1)));
    let id = match step {
        Step::Load { path, id } => {
            assert_eq!(path, "/p/flipper.polkavm");
            id
        }
        other => panic!("expected a load, got {:?}", other),
    };
    let r = handler.load_program(id, Ok(program_bytes()));
    assert!(r.error.is_none(), "{:?}", r.error);
    assert_eq!(handler.current_state(), SessionState::Initialized);
    handler
}

#[test]
fn test_handle_continue() {
    let mut handler = initialized_handler();
    let req = JsonRpcRequest::new(
        "continue".to_string(),
        Some(object(vec![("until", s("instruction123"))])),
        num_id(2),
    );
    let r = reply(dispatch_request(&mut handler, Ok(req)));
    assert_eq!(
        r.result,
        Some(object(vec![("status", s("running")), ("instructionPointer", s("instruction123"))]))
    );
}

#[test]
fn initialize_with_loadable_program_initializes() {
    let mut handler = CliHandler::new();
    let step = handle_message(&mut handler, Some(request("initialize", Some(object(vec![("path", s("/a.polkavm"))])), 7)));
    assert_eq!(handler.current_state(), SessionState::Uninitialized);
    let r = match step {
        Step::Load { id, .. } => handler.load_program(id, Ok(program_bytes())),
        other => panic!("expected a load, got {:?}", other),
    };
    assert_eq!(r.result, Some(object(vec![("status", s("initialized")), ("version", s("0.1.0"))])));
    assert_eq!(r.error, None);
    assert_eq!(r.id, num_id(7));
    assert_eq!(r.jsonrpc, "2.0");
    assert_eq!(handler.current_state(), SessionState::Initialized);
}

#[test]
fn initialize_with_missing_file_fails() {
    let mut handler = CliHandler::new();
    let body = request("initialize", Some(object(vec![("path", s("/missing/file"))])), 1);
    let step = handle_message(&mut handler, Some(body));
    let r = match step {
        Step::Load { path, id } => {
            assert_eq!(path, "/missing/file");
            handler.load_program(id, Err("No such file or directory (os error 2)".to_string()))
        }
        other => panic!("expected a load, got {:?}", other),
    };
    assert_eq!(r.result, None);
    assert_eq!(error_code(&r), 500);
    assert_eq!(r.error.unwrap().message, "No such file or directory (os error 2)");
    assert_eq!(r.id, num_id(1));
    assert_eq!(handler.current_state(), SessionState::Uninitialized);
}

#[test]
fn initialize_with_bad_blob_fails() {
    let mut handler = CliHandler::new();
    let r = handler.load_program(num_id(2), Ok(vec![1, 2, 3, 4]));
    assert_eq!(error_code(&r), 500);
    assert!(r.error.unwrap().message.starts_with("Failed to parse program blob: "));
    assert_eq!(handler.current_state(), SessionState::Uninitialized);
}

#[test]
fn continue_after_initialize_reports_running() {
    let mut handler = initialized_handler();
    let body = request("continue", Some(object(vec![("until", s("0x1000"))])), 3);
    let r = reply(handle_message(&mut handler, Some(body)));
    assert_eq!(
        r.result,
        Some(object(vec![("status", s("running")), ("instructionPointer", s("0x1000"))]))
    );
    assert_eq!(r.id, num_id(3));
    assert_eq!(handler.current_state(), SessionState::Initialized);
}

#[test]
fn disconnect_acknowledges_and_closes() {
    let mut handler = CliHandler::new();
    let body = object(vec![("jsonrpc", s("2.0")), ("method", s("disconnect")), ("id", num(4))]);
    match handle_message(&mut handler, Some(body)) {
        Step::Close(r) => {
            assert_eq!(r.result, Some(object(vec![("disconnected", JsonValue::Bool(true))])));
            assert_eq!(r.error, None);
            assert_eq!(r.id, num_id(4));
        }
        other => panic!("expected a close, got {:?}", other),
    }
    assert_eq!(handler.current_state(), SessionState::Disconnected);
    let r = reply(handle_message(&mut handler, Some(request("pause", None, 5))));
    assert_eq!(error_code(&r), 409);
    assert_eq!(r.error.unwrap().message, "The session is closed");
}

#[test]
fn disconnect_after_initialize_releases_program() {
    let mut handler = initialized_handler();
    match handle_message(&mut handler, Some(request("disconnect", None, 9))) {
        Step::Close(r) => assert_eq!(r.id, num_id(9)),
        other => panic!("expected a close, got {:?}", other),
    }
    assert_eq!(handler.current_state(), SessionState::Disconnected);
}

#[test]
fn commands_before_initialize_are_rejected() {
    for method in ["pause", "next", "continue"] {
        let mut handler = CliHandler::new();
        let params = Some(object(vec![("until", s("0x10"))]));
        let r = reply(handle_message(&mut handler, Some(request(method, params, 11))));
        assert_eq!(r.result, None);
        assert_eq!(error_code(&r), 409);
        assert_eq!(r.error.unwrap().message, "The debugger is not initialized");
        assert_eq!(r.id, num_id(11));
        assert_eq!(handler.current_state(), SessionState::Uninitialized);
    }
}

#[test]
fn malformed_bodies_get_400_and_null_id() {
    let bodies = vec![
        None,
        Some(s("not a request")),
        Some(object(vec![("jsonrpc", s("2.0")), ("id", num(1))])),
        Some(object(vec![("jsonrpc", s("2.0")), ("method", num(3)), ("id", num(1))])),
        Some(object(vec![("method", s("pause")), ("id", num(1))])),
        Some(object(vec![("jsonrpc", s("2.0")), ("method", s("pause")), ("id", JsonValue::Bool(true))])),
        Some(object(vec![("jsonrpc", s("2.0")), ("method", s("pause")), ("id", JsonValue::Null)])),
    ];
    for body in bodies {
        let mut handler = CliHandler::new();
        let r = reply(handle_message(&mut handler, body));
        assert_eq!(error_code(&r), 400);
        assert_eq!(r.error.unwrap().message, "Request error. Bad request.");
        assert_eq!(r.id, None);
        assert_eq!(handler.current_state(), SessionState::Uninitialized);
    }
}

#[test]
fn unknown_method_gets_404_in_every_state() {
    let mut fresh = CliHandler::new();
    let r = reply(handle_message(&mut fresh, Some(request("stackTrace", None, 21))));
    assert_eq!(error_code(&r), 404);
    assert_eq!(r.error.unwrap(), ink_sandbox::rpc::JsonRpcError { code: 404, message: "Method not found".to_string(), data: None });
    assert_eq!(r.result, None);
    assert_eq!(r.id, num_id(21));
    assert_eq!(fresh.current_state(), SessionState::Uninitialized);

    let mut ready = initialized_handler();
    let r = reply(handle_message(&mut ready, Some(request("stackTrace", None, 22))));
    assert_eq!(error_code(&r), 404);
    assert_eq!(ready.current_state(), SessionState::Initialized);

    let mut closed = CliHandler::new();
    handle_message(&mut closed, Some(request("disconnect", None, 23)));
    let r = reply(handle_message(&mut closed, Some(request("stackTrace", None, 24))));
    assert_eq!(error_code(&r), 404);
    assert_eq!(closed.current_state(), SessionState::Disconnected);
}

#[test]
fn missing_parameters_get_422_with_the_request_id() {
    let mut handler = CliHandler::new();
    let r = reply(handle_message(&mut handler, Some(request("initialize", None, 31))));
    assert_eq!(error_code(&r), 422);
    assert_eq!(r.error.unwrap().message, "No params found");
    assert_eq!(r.id, num_id(31));

    let wrong_type = Some(object(vec![("path", num(5))]));
    let r = reply(handle_message(&mut handler, Some(request("initialize", wrong_type, 32))));
    assert_eq!(error_code(&r), 422);

    let mut ready = initialized_handler();
    let r = reply(handle_message(&mut ready, Some(request("continue", Some(object(vec![])), 33))));
    assert_eq!(error_code(&r), 422);
    assert_eq!(ready.current_state(), SessionState::Initialized);
}

#[test]
fn pause_and_next_answer_empty_objects() {
    let mut handler = initialized_handler();
    let r = reply(handle_message(&mut handler, Some(request("pause", None, 41))));
    assert_eq!(r.result, Some(JsonValue::Object(vec![])));
    assert_eq!(r.id, num_id(41));
    let r = reply(handle_message(&mut handler, Some(request("next", None, 42))));
    assert_eq!(r.result, Some(JsonValue::Object(vec![])));
    assert_eq!(r.id, num_id(42));
}

#[test]
fn second_initialize_replaces_program() {
    let mut handler = initialized_handler();
    let step = handle_message(&mut handler, Some(request("initialize", Some(object(vec![("path", s("/b"))])), 51)));
    let r = match step {
        Step::Load { id, .. } => handler.load_program(id, Ok(program_bytes())),
        other => panic!("expected a load, got {:?}", other),
    };
    assert!(r.result.is_some());
    assert_eq!(handler.current_state(), SessionState::Initialized);
    let r = handler.load_program(num_id(52), Ok(vec![0]));
    assert_eq!(error_code(&r), 500);
    assert_eq!(handler.current_state(), SessionState::Initialized);
}

#[test]
fn responses_follow_requests_in_order_with_their_ids() {
    let mut handler = CliHandler::new();
    let ids: Vec<RequestId> = vec![
        RequestId::Number(JsonNumber::Unsigned(3)),
        RequestId::Text("b".to_string()),
        RequestId::Number(JsonNumber::Signed(-1)),
        RequestId::Text("a".to_string()),
    ];
    let methods = ["pause", "foo", "next", "disconnect"];
    let mut answered = Vec::new();
    for (m, id) in methods.iter().zip(ids.iter()) {
        let id_json = match id {
            RequestId::Number(JsonNumber::Unsigned(n)) => num(*n),
            RequestId::Number(JsonNumber::Signed(n)) => JsonValue::Number(JsonNumber::Signed(*n)),
            RequestId::Text(t) => s(t),
            _ => unreachable!(),
        };
        let body = object(vec![("jsonrpc", s("2.0")), ("method", s(m)), ("id", id_json)]);
        let step = handle_message(&mut handler, Some(body));
        let r = match step {
            Step::Reply(r) | Step::Close(r) => r,
            other => panic!("unexpected {:?}", other),
        };
        answered.push(r.id.unwrap());
    }
    assert_eq!(answered, ids);
}

#[test]
fn request_parsing_reads_the_envelope() {
    let body = object(vec![
        ("jsonrpc", s("2.0")),
        ("method", s("continue")),
        ("params", object(vec![("until", s("7"))])),
        ("id", s("x-1")),
    ]);
    let req = JsonRpcRequest::from_json(body).unwrap();
    assert_eq!(req.jsonrpc, "2.0");
    assert_eq!(req.method, "continue");
    assert_eq!(req.params, Some(object(vec![("until", s("7"))])));
    assert_eq!(req.id, Some(RequestId::Text("x-1".to_string())));
    assert_eq!(
        req.as_command(),
        Ok(DapCommand::Continue(ContinueParams { until: "7".to_string() }))
    );

    let notification = object(vec![("jsonrpc", s("2.0")), ("method", s("pause")), ("params", JsonValue::Null)]);
    let req = JsonRpcRequest::from_json(notification).unwrap();
    assert_eq!(req.id, None);
    assert_eq!(req.params, None);

    let dup = object(vec![("jsonrpc", s("2.0")), ("method", s("pause")), ("method", s("next"))]);
    assert_eq!(JsonRpcRequest::from_json(dup).unwrap().method, "next");
    assert_eq!(JsonRpcRequest::from_json(JsonValue::Null), Err(SandboxError::ParseError));
}

#[test]
fn translation_covers_every_method() {
    let init = JsonRpcRequest::new("initialize".to_string(), Some(object(vec![("path", s("/x"))])), None);
    assert_eq!(init.as_command(), Ok(DapCommand::Initialize(InitParams { polkavm: "/x".to_string() })));
    let cases = [("pause", DapCommand::Pause), ("next", DapCommand::Next), ("disconnect", DapCommand::Disconnect)];
    for (m, c) in cases {
        assert_eq!(JsonRpcRequest::new(m.to_string(), None, None).as_command(), Ok(c));
    }
    assert_eq!(
        JsonRpcRequest::new("threads".to_string(), None, None).as_command(),
        Ok(DapCommand::Unknown("threads".to_string()))
    );
    assert_eq!(
        JsonRpcRequest::new("continue".to_string(), None, None).as_command(),
        Err(SandboxError::ParamsNotFound)
    );
}

#[test]
fn error_codes_and_messages() {
    let cases = vec![
        (SandboxError::ParseError, 400, "Request error. Bad request."),
        (SandboxError::ParamsNotFound, 422, "No params found"),
        (SandboxError::MethodNotFound("x".to_string()), 404, "Method not found"),
        (SandboxError::NoEntryPoint, 500, "The program exports no entry point"),
        (SandboxError::NotInitialized, 409, "The debugger is not initialized"),
        (SandboxError::SessionClosed, 409, "The session is closed"),
        (SandboxError::Vm("boom".to_string()), 500, "boom"),
    ];
    for (e, code, message) in cases {
        assert_eq!(e.code(), code);
        assert_eq!(e.message(), message);
        let r = JsonRpcResponse::error(e, num_id(1));
        assert_eq!(r.error.as_ref().unwrap().code, code);
        assert_eq!(r.result, None);
    }
}

#[test]
fn response_json_holds_result_error_and_id() {
    let r = JsonRpcResponse::result(object(vec![("a", JsonValue::Bool(false))]), Some(RequestId::Text("q".to_string())));
    assert_eq!(
        r.into_json(),
        object(vec![
            ("jsonrpc", s("2.0")),
            ("result", object(vec![("a", JsonValue::Bool(false))])),
            ("id", s("q")),
        ])
    );
    let e = JsonRpcResponse::error(SandboxError::ParseError, None);
    assert_eq!(
        e.into_json(),
        object(vec![
            ("jsonrpc", s("2.0")),
            ("error", object(vec![("code", num(400)), ("message", s("Request error. Bad request."))])),
            ("id", JsonValue::Null),
        ])
    );
    let mut r = JsonRpcResponse::new(None, None, None);
    r.set_request_id(RequestId::Number(JsonNumber::Unsigned(8)));
    assert_eq!(r.id, num_id(8));
}

#[test]
fn sandbox_lists_exports_by_name() {
    let sandbox = Sandbox::from_bytecode(program_bytes()).unwrap();
    let exports = sandbox.selectors();
    assert_eq!(exports.len(), 1);
    assert_eq!(exports[0].0, "main");
    assert!(Sandbox::from_bytecode(Vec::new()).is_err());
}

#[test]
fn encoded_response_decodes_to_itself() {
    let made = || {
        vec![
            JsonRpcResponse::result(object(vec![("status", s("running"))]), num_id(3)),
            JsonRpcResponse::error(SandboxError::MethodNotFound("x".to_string()), Some(RequestId::Text("k".to_string()))),
            JsonRpcResponse::error(SandboxError::ParseError, None),
            JsonRpcResponse::new(
                None,
                Some(ink_sandbox::rpc::JsonRpcError { code: -32600, message: "m".to_string(), data: Some(num(1)) }),
                Some(RequestId::Number(JsonNumber::Signed(-4))),
            ),
        ]
    };
    for (original, copy) in made().into_iter().zip(made()) {
        assert_eq!(JsonRpcResponse::from_json(original.into_json()), Some(copy));
    }
    assert_eq!(JsonRpcResponse::from_json(object(vec![("jsonrpc", s("2.0"))])), None);
    let bad_code = object(vec![
        ("jsonrpc", s("2.0")),
        ("error", object(vec![("code", s("404")), ("message", s("m"))])),
        ("id", JsonValue::Null),
    ]);
    assert_eq!(JsonRpcResponse::from_json(bad_code), None);
}

#[test]
fn defaults_are_empty_envelopes() {
    let r = JsonRpcResponse::default();
    assert_eq!((r.jsonrpc.as_str(), r.result, r.error, r.id), ("2.0", None, None, None));
    let q = JsonRpcRequest::default();
    assert_eq!((q.jsonrpc.as_str(), q.method.as_str(), q.params, q.id), ("2.0", "", None, None));
}

#[test]
fn runs_stop_at_interrupts_and_at_the_target() {
    assert_eq!(stop_on(Interrupt::Trap, Some(4), Some(9)), Some(Interrupt::Trap));
    assert_eq!(stop_on(Interrupt::Ecalli(2), None, None), Some(Interrupt::Ecalli(2)));
    assert_eq!(stop_on(Interrupt::NotEnoughGas, Some(9), Some(9)), Some(Interrupt::NotEnoughGas));
    assert_eq!(stop_on(Interrupt::Step, Some(9), Some(9)), Some(Interrupt::Step));
    assert_eq!(stop_on(Interrupt::Step, Some(8), Some(9)), None);
    assert_eq!(stop_on(Interrupt::Step, Some(8), None), None);
    assert_eq!(stop_on(Interrupt::Step, None, Some(9)), None);
}

#[test]
fn export_names_are_decoded_in_order() {
    let listed = vec![(b"deploy".to_vec(), 0u32), ("caf\u{e9}".as_bytes().to_vec(), 7)];
    assert_eq!(decode_exports(listed), Some(vec![("deploy".to_string(), 0), ("caf\u{e9}".to_string(), 7)]));
    assert_eq!(decode_exports(vec![(b"ok".to_vec(), 1), (vec![0xff, 0xfe], 2)]), None);
    assert_eq!(decode_exports(Vec::new()), Some(Vec::new()));
}

#[test]
fn program_without_exports_loads_but_cannot_run() {
    let bytes = polkavm::program::assemble(
        Some(polkavm::program::InstructionSetKind::Latest64),
        "@main:\n    a0 = 1\n    trap\n",
    )
    .unwrap();
    let mut handler = CliHandler::new();
    let r = handler.load_program(num_id(61), Ok(bytes));
    assert_eq!(r.result, Some(object(vec![("status", s("initialized")), ("version", s("0.1.0"))])));
    assert_eq!(handler.current_state(), SessionState::Initialized);
    let r = reply(handle_message(&mut handler, Some(request("continue", Some(object(vec![("until", s("0x10"))])), 62))));
    assert_eq!(error_code(&r), 500);
    assert_eq!(r.error.unwrap().message, "The program exports no entry point");
    assert_eq!(r.id, num_id(62));
    let r = reply(handle_message(&mut handler, Some(request("next", None, 63))));
    assert_eq!(error_code(&r), 500);
    assert_eq!(handler.current_state(), SessionState::Initialized);
}

#[test]
fn bad_blob_is_a_machine_error() {
    match Sandbox::from_bytecode(vec![0x50, 0x56, 0x4d]) {
        Err(SandboxError::Vm(m)) => assert!(m.starts_with("Failed to parse program blob: ")),
        other => panic!("expected a machine error, got {:?}", other.err()),
    }
}

#[test]
fn continue_and_next_run_the_loaded_program() {
    let mut sandbox = Sandbox::from_bytecode(program_bytes()).unwrap();
    sandbox.enable_step_tracing().unwrap();
    assert_eq!(sandbox.step().unwrap(), Interrupt::Step);
    let stopped = sandbox.execute_until("instruction123").unwrap();
    assert_eq!(stopped, Interrupt::Trap);
}
