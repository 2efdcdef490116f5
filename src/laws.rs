use vstd::prelude::*;
use crate::command::{command_of, Command};
use crate::framing::{
    all_digits, crlf, decimal, decimal_value, framed, header_step_spec, length_prefix, line_content, Framing,
    HeaderStep,
};
use crate::json::JsonValue;
use crate::rpc::{is_response_json, request_of, response_of, JsonRpcRequest, JsonRpcResponse, SandboxError};
use crate::sandbox::Sandbox;
use crate::session::{
    dispatched, handled, initialize_completed, is_initialized_result, loads, reply_of, step_id, CliHandler,
    SessionState, Step,
};

verus! {

/// Serving a request answers it under its own id: a reply carries the id,
/// and a load is completed under it.
pub proof fn lemma_step_answers_request(before: CliHandler, after: CliHandler, req: JsonRpcRequest, s: Step)
    requires
        dispatched(before, after, req, s),
    ensures
        step_id(s) == req.id,
{
}

/// Requests served in order are answered in the same order, each under the
/// id of its request.
pub proof fn lemma_ids_in_order(sessions: Seq<CliHandler>, reqs: Seq<JsonRpcRequest>, steps: Seq<Step>)
    requires
        sessions.len() == reqs.len() + 1,
        steps.len() == reqs.len(),
        forall|i: int| 0 <= i < reqs.len() ==> dispatched(sessions[i], sessions[i + 1], #[trigger] reqs[i], steps[i]),
    ensures
        forall|i: int| 0 <= i < reqs.len() ==> step_id(#[trigger] steps[i]) == reqs[i].id,
{
    assert forall|i: int| 0 <= i < reqs.len() implies step_id(#[trigger] steps[i]) == reqs[i].id by {
        lemma_step_answers_request(sessions[i], sessions[i + 1], reqs[i], steps[i]);
    }
}

/// An `initialize` request on a session that is not closed asks for its
/// program to be loaded under its id; once a loadable program is handed
/// back, the response reports `initialized` and the session is initialized.
pub proof fn lemma_initialize_with_loadable_program(
    before: CliHandler,
    waiting: CliHandler,
    after: CliHandler,
    req: JsonRpcRequest,
    s: Step,
    path: Seq<char>,
    program: Sandbox,
    r: JsonRpcResponse,
)
    requires
        before.state() != SessionState::Disconnected,
        command_of(req.method@, req.params) == Some(Command::Initialize(path)),
        dispatched(before, waiting, req, s),
        initialize_completed(waiting, after, req.id, Ok::<Sandbox, SandboxError>(program), r),
    ensures
        loads(s, path, req.id),
        waiting == before,
        r.result matches Some(v) && is_initialized_result(v),
        r.error is None,
        r.id == req.id,
        after.state() == SessionState::Initialized,
{
}

/// Before `initialize`, every request but `initialize` and `disconnect` is
/// answered with an error and leaves the session uninitialized.
pub proof fn lemma_uninitialized_rejects(before: CliHandler, after: CliHandler, req: JsonRpcRequest, s: Step)
    requires
        before.state() == SessionState::Uninitialized,
        dispatched(before, after, req, s),
        !(command_of(req.method@, req.params) matches Some(Command::Initialize(_))),
        !(command_of(req.method@, req.params) matches Some(Command::Disconnect)),
    ensures
        reply_of(s) matches Some(r) && r.error is Some && r.result is None,
        after.state() == SessionState::Uninitialized,
{
}

/// A message body that is not a request is answered with code 400 and a
/// `null` id, and changes nothing.
pub proof fn lemma_malformed_body(before: CliHandler, after: CliHandler, body: Option<JsonValue>, s: Step)
    requires
        handled(before, after, body, s),
        body matches Some(v) ==> request_of(v) is Err,
    ensures
        s matches Step::Reply(r) && r.error matches Some(e) && e.code == 400 && r.id is None,
        after == before,
{
}

/// A method that the debugger does not know is answered with code 404, in
/// every state, and changes nothing.
pub proof fn lemma_unknown_method(before: CliHandler, after: CliHandler, req: JsonRpcRequest, s: Step)
    requires
        dispatched(before, after, req, s),
        command_of(req.method@, req.params) matches Some(Command::Unknown(_)),
    ensures
        s matches Step::Reply(r) && r.error matches Some(e) && e.code == 404 && r.id == req.id,
        after == before,
{
}

/// Decoding the structured message of a response gives back the response:
/// its result, its error and its id.
pub proof fn lemma_response_round_trip(v: JsonValue, r: JsonRpcResponse)
    requires
        is_response_json(v, r),
    ensures
        response_of(v) == Some(r),
{
    if let Some(e) = r.error {
        assert(crate::rpc::code_of(crate::rpc::code_number(e.code)) == Some(e.code));
    }
}

proof fn lemma_decimal(n: nat)
    ensures
        all_digits(decimal(n)),
        decimal_value(decimal(n)) == n,
        decimal(n).len() >= 1,
    decreases n,
{
    if n >= 10 {
        lemma_decimal(n / 10);
        let d = decimal(n / 10);
        let e = d.push((48 + n % 10) as u8);
        assert(e.drop_last() =~= d);
        assert(e.last() == (48 + n % 10) as u8);
        assert(decimal_value(e) == decimal_value(d) * 10 + (e.last() - 48) as nat);
        assert((n / 10) * 10 + n % 10 == n);
    } else {
        let s = seq![(48 + n) as u8];
        assert(s.drop_last() =~= Seq::<u8>::empty());
        assert(decimal_value(Seq::<u8>::empty()) == 0);
        assert(decimal_value(s) == decimal_value(s.drop_last()) * 10 + (s.last() - 48) as nat);
    }
}

/// The header line that announces a body of `len` bytes.
pub open spec fn length_line(len: nat) -> Seq<u8> {
    length_prefix() + decimal(len) + crlf()
}

/// A header-framed body is read back by its two header lines, which
/// announce its length, followed by exactly the body.
pub proof fn lemma_header_frame_round_trip(body: Seq<u8>)
    requires
        body.len() <= usize::MAX,
    ensures
        framed(body, Framing::Header) == length_line(body.len()) + crlf() + body,
        header_step_spec(None, length_line(body.len())) == HeaderStep::More(Some(body.len() as usize)),
        header_step_spec(Some(body.len() as usize), crlf()) == HeaderStep::Body(body.len() as usize),
{
    let line = length_line(body.len());
    lemma_decimal(body.len());
    let content = length_prefix() + decimal(body.len());
    assert(line.subrange(0, line.len() - 2) =~= content);
    assert(line[line.len() - 2] == 13 && line[line.len() - 1] == 10);
    assert(line_content(line) == content);
    assert(content.subrange(0, length_prefix().len() as int) =~= length_prefix());
    assert(content.subrange(length_prefix().len() as int, content.len() as int) =~= decimal(body.len()));
    assert(line_content(crlf()) =~= Seq::<u8>::empty());
    assert(framed(body, Framing::Header) =~= length_line(body.len()) + crlf() + body);
}

/// A body without line breaks, framed by lines, is read back as the line's
/// content.
pub proof fn lemma_newline_frame_round_trip(body: Seq<u8>)
    requires
        forall|i: int| 0 <= i < body.len() ==> body[i] != 10 && body[i] != 13,
    ensures
        line_content(framed(body, Framing::Newline)) == body,
{
    let line = body.push(10);
    if line.len() >= 2 {
        assert(line[line.len() - 2] == body[body.len() - 1]);
    }
    assert(line.drop_last() =~= body);
}

} // verus!
