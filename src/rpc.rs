use vstd::prelude::*;
use crate::json::{find, member, take_member, JsonNumber, JsonValue};

verus! {

/// The identity of a request, echoed in its response.
#[derive(Debug, PartialEq, Eq)]
pub enum RequestId {
    Number(JsonNumber),
    Text(String),
}

/// Everything that can go wrong while serving one request.
#[derive(Debug, PartialEq, Eq)]
pub enum SandboxError {
    /// The message is not a well-formed request envelope.
    ParseError,
    /// A recognised method lacks a required parameter, or has it with the
    /// wrong type.
    ParamsNotFound,
    /// The method name is not one that the debugger knows.
    MethodNotFound(String),
    /// The command needs a loaded program and none is loaded.
    NotInitialized,
    /// The session was disconnected.
    SessionClosed,
    /// The loaded program exports no entry point to start a run from; the
    /// machine cannot run it.
    NoEntryPoint,
    /// The virtual machine failed; its message.
    Vm(String),
}

/// A request envelope.
#[derive(Debug, PartialEq, Eq)]
pub struct JsonRpcRequest {
    pub jsonrpc: String,
    pub method: String,
    pub params: Option<JsonValue>,
    pub id: Option<RequestId>,
}

/// The error object of a response.
#[derive(Debug, PartialEq, Eq)]
pub struct JsonRpcError {
    pub code: i32,
    pub message: String,
    pub data: Option<JsonValue>,
}

/// A response envelope; `id` is `None` where the response carries `null`.
#[derive(Debug, PartialEq, Eq)]
pub struct JsonRpcResponse {
    pub jsonrpc: String,
    pub result: Option<JsonValue>,
    pub error: Option<JsonRpcError>,
    pub id: Option<RequestId>,
}

pub open spec fn protocol_version() -> Seq<char> {
    "2.0"@
}

pub open spec fn error_code(e: SandboxError) -> i32 {
    match e {
        SandboxError::ParseError => 400,
        SandboxError::ParamsNotFound => 422,
        SandboxError::MethodNotFound(_) => 404,
        SandboxError::NotInitialized => 409,
        SandboxError::SessionClosed => 409,
        SandboxError::NoEntryPoint => 500,
        SandboxError::Vm(_) => 500,
    }
}

pub open spec fn error_message(e: SandboxError) -> Seq<char> {
    match e {
        SandboxError::ParseError => "Request error. Bad request."@,
        SandboxError::ParamsNotFound => "No params found"@,
        SandboxError::MethodNotFound(_) => "Method not found"@,
        SandboxError::NotInitialized => "The debugger is not initialized"@,
        SandboxError::SessionClosed => "The session is closed"@,
        SandboxError::NoEntryPoint => "The program exports no entry point"@,
        SandboxError::Vm(m) => m@,
    }
}

impl SandboxError {
    /// The code that a response gives this error.
    pub fn code(&self) -> (r: i32)
        ensures
            r == error_code(*self),
    {
        match self {
            SandboxError::ParseError => 400,
            SandboxError::ParamsNotFound => 422,
            SandboxError::MethodNotFound(_) => 404,
            SandboxError::NotInitialized => 409,
            SandboxError::SessionClosed => 409,
            SandboxError::NoEntryPoint => 500,
            SandboxError::Vm(_) => 500,
        }
    }

    /// The message that a response gives this error.
    pub fn message(&self) -> (r: String)
        ensures
            r@ == error_message(*self),
    {
        match self {
            SandboxError::ParseError => String::from_str("Request error. Bad request."),
            SandboxError::ParamsNotFound => String::from_str("No params found"),
            SandboxError::MethodNotFound(_) => String::from_str("Method not found"),
            SandboxError::NotInitialized => String::from_str("The debugger is not initialized"),
            SandboxError::SessionClosed => String::from_str("The session is closed"),
            SandboxError::NoEntryPoint => String::from_str("The program exports no entry point"),
            SandboxError::Vm(m) => m.clone(),
        }
    }
}

/// The id that the member `id` of a request gives: `Some(None)` when it is
/// absent, `None` when it has a shape other than a number or a string.
pub open spec fn request_id_of(v: Option<JsonValue>) -> Option<Option<RequestId>> {
    match v {
        None => Some(None),
        Some(JsonValue::Number(n)) => Some(Some(RequestId::Number(n))),
        Some(JsonValue::Str(s)) => Some(Some(RequestId::Text(s))),
        _ => None,
    }
}

/// Parameters as a request carries them: an absent or `null` member gives none.
pub open spec fn params_of(v: Option<JsonValue>) -> Option<JsonValue> {
    match v {
        Some(JsonValue::Null) => None,
        _ => v,
    }
}

/// The request that a structured message holds: an object with a string
/// `jsonrpc`, a string `method`, any `params`, and an `id` that is a number,
/// a string or absent.
pub open spec fn request_of(v: JsonValue) -> Result<JsonRpcRequest, SandboxError> {
    match (member(v, "jsonrpc"@), member(v, "method"@), request_id_of(member(v, "id"@))) {
        (Some(JsonValue::Str(version)), Some(JsonValue::Str(method)), Some(id)) => Ok(
            JsonRpcRequest { jsonrpc: version, method, params: params_of(member(v, "params"@)), id },
        ),
        _ => Err(SandboxError::ParseError),
    }
}

/// The JSON of a response id: `null` for none.
pub open spec fn id_json(id: Option<RequestId>) -> JsonValue {
    match id {
        None => JsonValue::Null,
        Some(RequestId::Number(n)) => JsonValue::Number(n),
        Some(RequestId::Text(s)) => JsonValue::Str(s),
    }
}

/// The JSON number of an error code.
pub open spec fn code_number(code: i32) -> JsonNumber {
    if code >= 0 {
        JsonNumber::Unsigned(code as u64)
    } else {
        JsonNumber::Signed(code as i64)
    }
}

/// The error code that a JSON number writes, if it fits.
pub open spec fn code_of(n: JsonNumber) -> Option<i32> {
    match n {
        JsonNumber::Unsigned(u) => if u <= i32::MAX {
            Some(u as i32)
        } else {
            None
        },
        JsonNumber::Signed(i) => if i32::MIN <= i <= i32::MAX {
            Some(i as i32)
        } else {
            None
        },
        JsonNumber::Text(_) => None,
    }
}

/// Whether `v` is the JSON object of the error `e`: `code`, `message`, and
/// `data` where there is some.
pub open spec fn is_error_json(v: JsonValue, e: JsonRpcError) -> bool {
    &&& v is Object
    &&& member(v, "code"@) == Some(JsonValue::Number(code_number(e.code)))
    &&& member(v, "message"@) == Some(JsonValue::Str(e.message))
    &&& member(v, "data"@) == e.data
}

/// Whether `v` is the JSON object of the response `r`: `jsonrpc`, `result`
/// or `error` where present, and `id`, `null` where there is none.
pub open spec fn is_response_json(v: JsonValue, r: JsonRpcResponse) -> bool {
    &&& v is Object
    &&& member(v, "jsonrpc"@) == Some(JsonValue::Str(r.jsonrpc))
    &&& member(v, "result"@) == r.result
    &&& match r.error {
        None => member(v, "error"@) is None,
        Some(e) => member(v, "error"@) matches Some(ev) && is_error_json(ev, e),
    }
    &&& member(v, "id"@) == Some(id_json(r.id))
}

/// The error object that `v` holds, if it is one.
pub open spec fn error_of(v: JsonValue) -> Option<JsonRpcError> {
    match (member(v, "code"@), member(v, "message"@)) {
        (Some(JsonValue::Number(n)), Some(JsonValue::Str(message))) => match code_of(n) {
            Some(code) => Some(JsonRpcError { code, message, data: member(v, "data"@) }),
            None => None,
        },
        _ => None,
    }
}

/// The id that the member `id` of a response gives, `null` for none.
pub open spec fn response_id_of(v: Option<JsonValue>) -> Option<Option<RequestId>> {
    match v {
        Some(JsonValue::Null) => Some(None),
        Some(JsonValue::Number(n)) => Some(Some(RequestId::Number(n))),
        Some(JsonValue::Str(s)) => Some(Some(RequestId::Text(s))),
        _ => None,
    }
}

/// The response that a structured message holds.
pub open spec fn response_of(v: JsonValue) -> Option<JsonRpcResponse> {
    match (member(v, "jsonrpc"@), response_id_of(member(v, "id"@))) {
        (Some(JsonValue::Str(version)), Some(id)) => match member(v, "error"@) {
            None => Some(JsonRpcResponse { jsonrpc: version, result: member(v, "result"@), error: None, id }),
            Some(ev) => match error_of(ev) {
                Some(e) => Some(
                    JsonRpcResponse { jsonrpc: version, result: member(v, "result"@), error: Some(e), id },
                ),
                None => None,
            },
        },
        _ => None,
    }
}

/// A string holding `s`, with its view revealed.
pub fn text(s: &str) -> (r: String)
    ensures
        r@ == s@,
{
    String::from_str(s)
}

fn version_string() -> (r: String)
    ensures
        r@ == protocol_version(),
{
    text("2.0")
}

impl JsonRpcRequest {
    /// A request of the current protocol version.
    pub fn new(method: String, params: Option<JsonValue>, id: Option<RequestId>) -> (r: Self)
        ensures
            r.jsonrpc@ == protocol_version(),
            r.method == method,
            r.params == params,
            r.id == id,
    {
        JsonRpcRequest { jsonrpc: version_string(), method, params, id }
    }

    /// Reads a request out of a structured message.
    pub fn from_json(v: JsonValue) -> (r: Result<Self, SandboxError>)
        ensures
            r == request_of(v),
    {
        let ghost v0 = v;
        proof {
            reveal_strlit("jsonrpc");
            reveal_strlit("method");
            reveal_strlit("id");
            reveal_strlit("params");
        }
        match v {
            JsonValue::Object(mut members) => {
                let version = take_member(&mut members, &text("jsonrpc"));
                let method = take_member(&mut members, &text("method"));
                let id = take_member(&mut members, &text("id"));
                let params = take_member(&mut members, &text("params"));
                proof {
                    assert("jsonrpc"@.len() == 7);
                    assert("method"@.len() == 6);
                    assert("id"@.len() == 2);
                    assert("params"@.len() == 6 && "params"@[0] == 'p' && "method"@[0] == 'm');
                    assert(member(v0, "method"@) == method);
                    assert(member(v0, "id"@) == id);
                    assert(member(v0, "params"@) == params);
                }
                let id = match id {
                    None => None,
                    Some(JsonValue::Number(n)) => Some(RequestId::Number(n)),
                    Some(JsonValue::Str(s)) => Some(RequestId::Text(s)),
                    _ => {
                        return Err(SandboxError::ParseError);
                    },
                };
                let params = match params {
                    Some(JsonValue::Null) => None,
                    p => p,
                };
                match (version, method) {
                    (Some(JsonValue::Str(jsonrpc)), Some(JsonValue::Str(method))) => Ok(
                        JsonRpcRequest { jsonrpc, method, params, id },
                    ),
                    _ => Err(SandboxError::ParseError),
                }
            },
            _ => Err(SandboxError::ParseError),
        }
    }
}

impl JsonRpcResponse {
    /// A response of the current protocol version.
    pub fn new(result: Option<JsonValue>, error: Option<JsonRpcError>, id: Option<RequestId>) -> (r: Self)
        ensures
            r.jsonrpc@ == protocol_version(),
            r.result == result,
            r.error == error,
            r.id == id,
    {
        JsonRpcResponse { jsonrpc: version_string(), result, error, id }
    }

    /// The response that reports `err`.
    pub fn error(err: SandboxError, id: Option<RequestId>) -> (r: Self)
        ensures
            r.is_error_for(err, id),
    {
        let e = JsonRpcError { code: err.code(), message: err.message(), data: None };
        JsonRpcResponse::new(None, Some(e), id)
    }

    /// The response that carries `result`.
    pub fn result(result: JsonValue, id: Option<RequestId>) -> (r: Self)
        ensures
            r.jsonrpc@ == protocol_version(),
            r.result == Some(result),
            r.error is None,
            r.id == id,
    {
        JsonRpcResponse::new(Some(result), None, id)
    }

    /// Whether this is the response that reports `err` for the request `id`.
    pub open spec fn is_error_for(self, err: SandboxError, id: Option<RequestId>) -> bool {
        self.is_error(error_code(err), error_message(err), id)
    }

    /// Whether this is an error response with the given code and message
    /// for the request `id`.
    pub open spec fn is_error(self, code: i32, message: Seq<char>, id: Option<RequestId>) -> bool {
        &&& self.jsonrpc@ == protocol_version()
        &&& self.result is None
        &&& self.error matches Some(e) && e.code == code && e.message@ == message && e.data is None
        &&& self.id == id
    }

    /// Whether this reports a failure of the virtual machine for the
    /// request `id`.
    pub open spec fn is_vm_error(self, id: Option<RequestId>) -> bool {
        &&& self.jsonrpc@ == protocol_version()
        &&& self.result is None
        &&& self.error matches Some(e) && e.code == 500 && e.data is None
        &&& self.id == id
    }

    /// Whether this is a successful response whose result satisfies `p`,
    /// for the request `id`.
    pub open spec fn is_result(self, p: spec_fn(JsonValue) -> bool, id: Option<RequestId>) -> bool {
        &&& self.jsonrpc@ == protocol_version()
        &&& self.result matches Some(v) && p(v)
        &&& self.error is None
        &&& self.id == id
    }

    /// Exactly one of `result` and `error` is present.
    pub open spec fn wf(self) -> bool {
        self.result is Some != self.error is Some
    }

    pub fn set_request_id(&mut self, id: RequestId)
        ensures
            final(self).id == Some(id),
            final(self).jsonrpc == old(self).jsonrpc,
            final(self).result == old(self).result,
            final(self).error == old(self).error,
    {
        self.id = Some(id);
    }

    /// Reads a response out of a structured message, as a client does.
    pub fn from_json(v: JsonValue) -> (r: Option<Self>)
        ensures
            r == response_of(v),
    {
        let ghost v0 = v;
        proof {
            reveal_strlit("jsonrpc");
            reveal_strlit("result");
            reveal_strlit("error");
            reveal_strlit("id");
            assert("jsonrpc"@.len() == 7 && "result"@.len() == 6 && "error"@.len() == 5 && "id"@.len() == 2);
        }
        let mut members = match v {
            JsonValue::Object(m) => m,
            _ => {
                return None;
            },
        };
        let version = take_member(&mut members, &text("jsonrpc"));
        let result = take_member(&mut members, &text("result"));
        let error = take_member(&mut members, &text("error"));
        let id = take_member(&mut members, &text("id"));
        proof {
            assert(member(v0, "result"@) == result);
            assert(member(v0, "error"@) == error);
            assert(member(v0, "id"@) == id);
        }
        let jsonrpc = match version {
            Some(JsonValue::Str(s)) => s,
            _ => {
                return None;
            },
        };
        let id = match id {
            Some(JsonValue::Null) => None,
            Some(JsonValue::Number(n)) => Some(RequestId::Number(n)),
            Some(JsonValue::Str(s)) => Some(RequestId::Text(s)),
            _ => {
                return None;
            },
        };
        let error = match error {
            None => None,
            Some(ev) => match error_from_json(ev) {
                Some(e) => Some(e),
                None => {
                    return None;
                },
            },
        };
        Some(JsonRpcResponse { jsonrpc, result, error, id })
    }

    /// The structured message of this response.
    pub fn into_json(self) -> (r: JsonValue)
        ensures
            is_response_json(r, self),
    {
        let ghost old_self = self;
        let mut members: Vec<(String, JsonValue)> = Vec::new();
        members.push((text("jsonrpc"), JsonValue::Str(self.jsonrpc)));
        if let Some(v) = self.result {
            members.push((text("result"), v));
        }
        if let Some(e) = self.error {
            let mut em: Vec<(String, JsonValue)> = Vec::new();
            let code = if e.code >= 0 {
                JsonNumber::Unsigned(e.code as u64)
            } else {
                JsonNumber::Signed(e.code as i64)
            };
            em.push((text("code"), JsonValue::Number(code)));
            em.push((text("message"), JsonValue::Str(e.message)));
            if let Some(d) = e.data {
                em.push((text("data"), d));
            }
            proof {
                reveal_strlit("code");
                reveal_strlit("message");
                reveal_strlit("data");
                reveal_with_fuel(find, 4);
                assert("code"@.len() == 4 && "message"@.len() == 7 && "data"@.len() == 4 && "code"@[0] == 'c');
                assert(is_error_json(JsonValue::Object(em), e));
            }
            members.push((text("error"), JsonValue::Object(em)));
        }
        let id = match self.id {
            None => JsonValue::Null,
            Some(RequestId::Number(n)) => JsonValue::Number(n),
            Some(RequestId::Text(s)) => JsonValue::Str(s),
        };
        members.push((text("id"), id));
        proof {
            reveal_strlit("jsonrpc");
            reveal_strlit("result");
            reveal_strlit("error");
            reveal_strlit("id");
            reveal_with_fuel(find, 5);
            assert("jsonrpc"@.len() == 7 && "result"@.len() == 6 && "error"@.len() == 5 && "id"@.len() == 2);
            assert(member(JsonValue::Object(members), "jsonrpc"@) == Some(JsonValue::Str(old_self.jsonrpc)));
            assert(member(JsonValue::Object(members), "result"@) == old_self.result);
            assert(member(JsonValue::Object(members), "id"@) == Some(id_json(old_self.id)));
        }
        JsonValue::Object(members)
    }
}

/// Reads an error object.
fn error_from_json(v: JsonValue) -> (r: Option<JsonRpcError>)
    ensures
        r == error_of(v),
{
    let ghost v0 = v;
    proof {
        reveal_strlit("code");
        reveal_strlit("message");
        reveal_strlit("data");
        assert("code"@.len() == 4 && "message"@.len() == 7 && "data"@.len() == 4 && "code"@[0] == 'c');
    }
    let mut members = match v {
        JsonValue::Object(m) => m,
        _ => {
            return None;
        },
    };
    let code = take_member(&mut members, &text("code"));
    let message = take_member(&mut members, &text("message"));
    let data = take_member(&mut members, &text("data"));
    proof {
        assert(member(v0, "message"@) == message);
        assert(member(v0, "data"@) == data);
    }
    let code: i32 = match code {
        Some(JsonValue::Number(JsonNumber::Unsigned(u))) => if u <= 0x7fff_ffff {
            u as i32
        } else {
            return None;
        },
        Some(JsonValue::Number(JsonNumber::Signed(i))) => if -0x8000_0000 <= i && i <= 0x7fff_ffff {
            i as i32
        } else {
            return None;
        },
        _ => {
            return None;
        },
    };
    match message {
        Some(JsonValue::Str(message)) => Some(JsonRpcError { code, message, data }),
        _ => None,
    }
}

impl Default for JsonRpcRequest {
    fn default() -> (r: Self)
        ensures
            r.jsonrpc@ == protocol_version(),
            r.method@.len() == 0,
            r.params is None,
            r.id is None,
    {
        JsonRpcRequest::new(String::new(), None, None)
    }
}

impl Default for JsonRpcResponse {
    fn default() -> (r: Self)
        ensures
            r.jsonrpc@ == protocol_version(),
            r.result is None,
            r.error is None,
            r.id is None,
    {
        JsonRpcResponse::new(None, None, None)
    }
}

} // verus!
