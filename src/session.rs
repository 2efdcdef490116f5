use vstd::prelude::*;
use crate::command::{command_of, Command, ContinueParams, DapCommand};
use crate::json::{is_string_object, member, string_value, JsonValue};
use crate::rpc::{error_code, error_message, request_of, text, JsonRpcRequest, JsonRpcResponse, RequestId, SandboxError};
use crate::sandbox::{all_utf8, blob_compiles, blob_exports, blob_parses, decoded, Sandbox};

verus! {

/// Where a debug session is in its lifecycle.
#[derive(Debug, Clone, Copy, PartialEq, Eq, Structural)]
pub enum SessionState {
    Uninitialized,
    Initialized,
    Disconnected,
}

/// What the serving loop does after a message.
#[derive(Debug, PartialEq, Eq)]
pub enum Step {
    /// Send the response and read the next message.
    Reply(JsonRpcResponse),
    /// Send the response, then end the connection.
    Close(JsonRpcResponse),
    /// Read the program file at `path` and hand its bytes, or the reason it
    /// could not be read, to `CliHandler::load_program` with `id`.
    Load { path: String, id: Option<RequestId> },
}

/// The version that `initialize` reports.
pub open spec fn debugger_version() -> Seq<char> {
    "0.1.0"@
}

/// `{"status": "initialized", "version": ...}`
pub open spec fn is_initialized_result(v: JsonValue) -> bool {
    is_string_object(v, seq![("status"@, "initialized"@), ("version"@, debugger_version())])
}

/// `{"status": "running", "instructionPointer": until}`
pub open spec fn is_running_result(v: JsonValue, until: Seq<char>) -> bool {
    is_string_object(v, seq![("status"@, "running"@), ("instructionPointer"@, until)])
}

/// `{}`
pub open spec fn is_empty_result(v: JsonValue) -> bool {
    v matches JsonValue::Object(m) && m@.len() == 0
}

/// `{"disconnected": true}`
pub open spec fn is_disconnected_result(v: JsonValue) -> bool {
    &&& v matches JsonValue::Object(m) && m@.len() == 1
    &&& member(v, "disconnected"@) == Some(JsonValue::Bool(true))
}

/// What completing `initialize` with the outcome `loaded` does, from the
/// session `before` to the session `after`, with the response `r`.
pub open spec fn initialize_completed(
    before: CliHandler,
    after: CliHandler,
    id: Option<RequestId>,
    loaded: Result<Sandbox, SandboxError>,
    r: JsonRpcResponse,
) -> bool {
    if before.state() == SessionState::Disconnected {
        r.is_error_for(SandboxError::SessionClosed, id) && after == before
    } else {
        match loaded {
            Ok(s) => r.is_result(|v: JsonValue| is_initialized_result(v), id) && after.state()
                == SessionState::Initialized && after.program() == Some(s),
            Err(e) => r.is_error_for(e, id) && after == before,
        }
    }
}

/// Whether the bytes are a program that the debugger can load: a blob
/// whose exported names are UTF-8 and which compiles, plain and with step
/// tracing.
pub open spec fn loadable(b: Seq<u8>) -> bool {
    &&& blob_parses(b)
    &&& all_utf8(blob_exports(b))
    &&& blob_compiles(b, false)
    &&& blob_compiles(b, true)
}

/// The session of one client connection: its state, and the loaded program
/// while it is initialized.
pub struct CliHandler {
    sandbox: Option<Sandbox>,
    state: SessionState,
}

impl CliHandler {
    pub closed spec fn state(&self) -> SessionState {
        self.state
    }

    /// The loaded program, if any.
    pub closed spec fn program(&self) -> Option<Sandbox> {
        self.sandbox
    }

    /// A program is loaded exactly while the session is initialized.
    pub open spec fn wf(&self) -> bool {
        (self.state() == SessionState::Initialized) == (self.program() is Some)
    }

    /// A fresh session, with nothing loaded.
    pub fn new() -> (r: CliHandler)
        ensures
            r.wf(),
            r.state() == SessionState::Uninitialized,
    {
        CliHandler { sandbox: None, state: SessionState::Uninitialized }
    }

    /// The current state.
    pub fn current_state(&self) -> (r: SessionState)
        ensures
            r == self.state(),
    {
        self.state
    }

    /// Completes `initialize` with the outcome of loading the program:
    /// a loaded program replaces any previous one and initializes the
    /// session; a failure is reported and changes nothing.
    pub fn handle_initialize(&mut self, id: Option<RequestId>, loaded: Result<Sandbox, SandboxError>) -> (r:
        JsonRpcResponse)
        requires
            old(self).wf(),
        ensures
            final(self).wf(),
            r.wf(),
            initialize_completed(*old(self), *final(self), id, loaded, r),
    {
        if self.state == SessionState::Disconnected {
            return JsonRpcResponse::error(SandboxError::SessionClosed, id);
        }
        match loaded {
            Ok(s) => {
                self.sandbox = Some(s);
                self.state = SessionState::Initialized;
                JsonRpcResponse::result(initialized_result(), id)
            },
            Err(e) => JsonRpcResponse::error(e, id),
        }
    }

    /// Completes `initialize` with the bytes of the program file, or the
    /// reason it could not be read.
    pub fn load_program(&mut self, id: Option<RequestId>, bytecode: Result<Vec<u8>, String>) -> (r: JsonRpcResponse)
        requires
            old(self).wf(),
        ensures
            final(self).wf(),
            r.wf(),
            old(self).state() == SessionState::Disconnected ==> r.is_error_for(SandboxError::SessionClosed, id)
                && *final(self) == *old(self),
            old(self).state() != SessionState::Disconnected ==> match bytecode {
                Err(m) => r.is_error(500, m@, id) && *final(self) == *old(self),
                Ok(b) => if loadable(b@) {
                    &&& r.is_result(|v: JsonValue| is_initialized_result(v), id)
                    &&& final(self).state() == SessionState::Initialized
                    &&& final(self).program() matches Some(s) && s.exported() == decoded(blob_exports(b@))
                } else {
                    r.is_vm_error(id) && *final(self) == *old(self)
                },
            },
    {
        if self.state == SessionState::Disconnected {
            return JsonRpcResponse::error(SandboxError::SessionClosed, id);
        }
        let loaded = match bytecode {
            Ok(b) => match Sandbox::from_bytecode(b) {
                Ok(mut s) => match s.enable_step_tracing() {
                    Ok(()) => Ok(s),
                    Err(e) => Err(e),
                },
                Err(e) => Err(e),
            },
            Err(m) => Err(SandboxError::Vm(m)),
        };
        self.handle_initialize(id, loaded)
    }

    fn handle_disconnect(&mut self) -> (r: JsonValue)
        ensures
            final(self).state() == SessionState::Disconnected,
            final(self).program() is None,
            is_disconnected_result(r),
    {
        self.sandbox = None;
        self.state = SessionState::Disconnected;
        disconnected_result()
    }

    fn handle_pause(&self) -> (r: JsonValue)
        ensures
            is_empty_result(r),
    {
        empty_result()
    }

    fn handle_continue(&mut self, params: ContinueParams) -> (r: Result<JsonValue, SandboxError>)
        requires
            old(self).wf(),
            old(self).state() == SessionState::Initialized,
        ensures
            final(self).wf(),
            final(self).state() == SessionState::Initialized,
            match r {
                Ok(v) => is_running_result(v, params.until@),
                Err(e) => e is Vm || e is NoEntryPoint,
            },
    {
        match &mut self.sandbox {
            Some(s) => match s.execute_until(params.until.as_str()) {
                Ok(_) => Ok(running_result(params.until)),
                Err(e) => Err(e),
            },
            None => Err(SandboxError::NotInitialized),
        }
    }

    fn handle_next(&mut self) -> (r: Result<JsonValue, SandboxError>)
        requires
            old(self).wf(),
            old(self).state() == SessionState::Initialized,
        ensures
            final(self).wf(),
            final(self).state() == SessionState::Initialized,
            match r {
                Ok(v) => is_empty_result(v),
                Err(e) => e is Vm || e is NoEntryPoint,
            },
    {
        match &mut self.sandbox {
            Some(s) => match s.step() {
                Ok(_) => Ok(empty_result()),
                Err(e) => Err(e),
            },
            None => Err(SandboxError::NotInitialized),
        }
    }

    fn handle_unknown(&self, command: String) -> (r: SandboxError)
        ensures
            r == SandboxError::MethodNotFound(command),
    {
        SandboxError::MethodNotFound(command)
    }
}

/// The response that a step sends, if it sends one.
pub open spec fn reply_of(s: Step) -> Option<JsonRpcResponse> {
    match s {
        Step::Reply(r) => Some(r),
        Step::Close(r) => Some(r),
        Step::Load { .. } => None,
    }
}

/// The request id that a step answers.
pub open spec fn step_id(s: Step) -> Option<RequestId> {
    match s {
        Step::Reply(r) => r.id,
        Step::Close(r) => r.id,
        Step::Load { id, .. } => id,
    }
}

/// Whether `s` asks for the program at `p` to be loaded for `id`.
pub open spec fn loads(s: Step, p: Seq<char>, id: Option<RequestId>) -> bool {
    match s {
        Step::Load { path, id: load_id } => path@ == p && load_id == id,
        _ => false,
    }
}

/// Whether `s` replies with the error `err` for `id`.
pub open spec fn replies_error(s: Step, err: SandboxError, id: Option<RequestId>) -> bool {
    replies(s, error_code(err), error_message(err), id)
}

/// What a command that needs a loaded program does on an initialized
/// session.
pub open spec fn ran(c: Command, before: CliHandler, after: CliHandler, s: Step, id: Option<RequestId>) -> bool {
    let unchanged = after == before;
    after.state() == SessionState::Initialized && match s {
        Step::Reply(r) => match c {
            Command::Pause => r.is_result(|v: JsonValue| is_empty_result(v), id) && unchanged,
            Command::Continue(u) => r.is_result(|v: JsonValue| is_running_result(v, u), id) || r.is_vm_error(id),
            _ => r.is_result(|v: JsonValue| is_empty_result(v), id) || r.is_vm_error(id),
        },
        _ => false,
    }
}

/// What a known command does on a session that is not disconnected.
pub open spec fn served(c: Command, before: CliHandler, after: CliHandler, s: Step, id: Option<RequestId>) -> bool {
    let unchanged = after == before;
    match c {
        Command::Initialize(p) => loads(s, p, id) && unchanged,
        Command::Disconnect => closes(s, id) && after.state() == SessionState::Disconnected && after.program() is None,
        _ => if before.state() == SessionState::Uninitialized {
            replies_error(s, SandboxError::NotInitialized, id) && unchanged
        } else {
            ran(c, before, after, s, id)
        },
    }
}

/// Whether `s` acknowledges a disconnect for `id` and ends the connection.
pub open spec fn closes(s: Step, id: Option<RequestId>) -> bool {
    match s {
        Step::Close(r) => r.is_result(|v: JsonValue| is_disconnected_result(v), id),
        _ => false,
    }
}

/// What serving the request `req` does, from the session `before` to the
/// session `after`, with the step `s`.
pub open spec fn dispatched(before: CliHandler, after: CliHandler, req: JsonRpcRequest, s: Step) -> bool {
    let id = req.id;
    let unchanged = after == before;
    match command_of(req.method@, req.params) {
        None => replies_error(s, SandboxError::ParamsNotFound, id) && unchanged,
        Some(Command::Unknown(_)) => replies(s, 404, "Method not found"@, id) && unchanged,
        Some(c) => if before.state() == SessionState::Disconnected {
            replies_error(s, SandboxError::SessionClosed, id) && unchanged
        } else {
            served(c, before, after, s, id)
        },
    }
}

/// Whether `s` replies with an error of the given code and message for `id`.
pub open spec fn replies(s: Step, code: i32, message: Seq<char>, id: Option<RequestId>) -> bool {
    match s {
        Step::Reply(r) => r.is_error(code, message, id),
        _ => false,
    }
}

/// Serves one request, or reports why it could not be read.
pub fn dispatch_request(handler: &mut CliHandler, request: Result<JsonRpcRequest, SandboxError>) -> (r: Step)
    requires
        old(handler).wf(),
    ensures
        final(handler).wf(),
        reply_of(r) matches Some(resp) ==> resp.wf(),
        match request {
            Ok(req) => dispatched(*old(handler), *final(handler), req, r),
            Err(e) => replies_error(r, e, None) && *final(handler) == *old(handler),
        },
{
    let req = match request {
        Ok(req) => req,
        Err(e) => {
            return Step::Reply(JsonRpcResponse::error(e, None));
        },
    };
    let command = req.as_command();
    let id = req.id;
    let command = match command {
        Ok(c) => c,
        Err(e) => {
            return Step::Reply(JsonRpcResponse::error(e, id));
        },
    };
    if let DapCommand::Unknown(name) = command {
        let e = handler.handle_unknown(name);
        return Step::Reply(JsonRpcResponse::error(e, id));
    }
    if handler.state == SessionState::Disconnected {
        return Step::Reply(JsonRpcResponse::error(SandboxError::SessionClosed, id));
    }
    if let DapCommand::Initialize(p) = command {
        return Step::Load { path: p.polkavm, id };
    }
    if let DapCommand::Disconnect = command {
        let v = handler.handle_disconnect();
        return Step::Close(JsonRpcResponse::result(v, id));
    }
    if handler.state == SessionState::Uninitialized {
        return Step::Reply(JsonRpcResponse::error(SandboxError::NotInitialized, id));
    }
    let outcome = match command {
        DapCommand::Continue(p) => handler.handle_continue(p),
        DapCommand::Next => handler.handle_next(),
        _ => Ok(handler.handle_pause()),
    };
    match outcome {
        Ok(v) => Step::Reply(JsonRpcResponse::result(v, id)),
        Err(e) => Step::Reply(JsonRpcResponse::error(e, id)),
    }
}

/// What serving the message `body` does, from the session `before` to the
/// session `after`, with the step `s`: a body that is not a request is
/// answered with a parse error and no id.
pub open spec fn handled(before: CliHandler, after: CliHandler, body: Option<JsonValue>, s: Step) -> bool {
    match body {
        Some(v) => match request_of(v) {
            Ok(req) => dispatched(before, after, req, s),
            Err(_) => replies_error(s, SandboxError::ParseError, None) && after == before,
        },
        None => replies_error(s, SandboxError::ParseError, None) && after == before,
    }
}

/// Serves one message body: `None` where it was not valid structured data.
pub fn handle_message(handler: &mut CliHandler, body: Option<JsonValue>) -> (r: Step)
    requires
        old(handler).wf(),
    ensures
        final(handler).wf(),
        reply_of(r) matches Some(resp) ==> resp.wf(),
        handled(*old(handler), *final(handler), body, r),
{
    match body {
        None => Step::Reply(JsonRpcResponse::error(SandboxError::ParseError, None)),
        Some(v) => dispatch_request(handler, JsonRpcRequest::from_json(v)),
    }
}

fn initialized_result() -> (r: JsonValue)
    ensures
        is_initialized_result(r),
{
    let mut m: Vec<(String, JsonValue)> = Vec::new();
    m.push((text("status"), string_value("initialized")));
    m.push((text("version"), string_value("0.1.0")));
    JsonValue::Object(m)
}

fn running_result(until: String) -> (r: JsonValue)
    ensures
        is_running_result(r, until@),
{
    let mut m: Vec<(String, JsonValue)> = Vec::new();
    m.push((text("status"), string_value("running")));
    m.push((text("instructionPointer"), JsonValue::Str(until)));
    JsonValue::Object(m)
}

fn empty_result() -> (r: JsonValue)
    ensures
        is_empty_result(r),
{
    JsonValue::Object(Vec::new())
}

fn disconnected_result() -> (r: JsonValue)
    ensures
        is_disconnected_result(r),
{
    let mut m: Vec<(String, JsonValue)> = Vec::new();
    m.push((text("disconnected"), JsonValue::Bool(true)));
    proof {
        reveal_with_fuel(crate::json::find, 2);
    }
    JsonValue::Object(m)
}

} // verus!
