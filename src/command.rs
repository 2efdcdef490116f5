use vstd::prelude::*;
use crate::json::{member, str_of, string_member, JsonValue};
use crate::rpc::{text, JsonRpcRequest, SandboxError};

verus! {

/// The parameters of `initialize`: the path of the program to load.
#[derive(Debug, PartialEq, Eq)]
pub struct InitParams {
    pub polkavm: String,
}

/// The parameters of `continue`: where execution should stop.
#[derive(Debug, PartialEq, Eq)]
pub struct ContinueParams {
    pub until: String,
}

/// A debugger command, as a request names it.
#[derive(Debug, PartialEq, Eq)]
pub enum DapCommand {
    Initialize(InitParams),
    Pause,
    Continue(ContinueParams),
    Disconnect,
    Next,
    Unknown(String),
}

/// A command as plain values.
pub enum Command {
    Initialize(Seq<char>),
    Pause,
    Continue(Seq<char>),
    Disconnect,
    Next,
    Unknown(Seq<char>),
}

impl View for DapCommand {
    type V = Command;

    open spec fn view(&self) -> Command {
        match self {
            DapCommand::Initialize(p) => Command::Initialize(p.polkavm@),
            DapCommand::Pause => Command::Pause,
            DapCommand::Continue(p) => Command::Continue(p.until@),
            DapCommand::Disconnect => Command::Disconnect,
            DapCommand::Next => Command::Next,
            DapCommand::Unknown(m) => Command::Unknown(m@),
        }
    }
}

/// The member `key` of the parameters, if they are an object that has it.
pub open spec fn param(params: Option<JsonValue>, key: Seq<char>) -> Option<JsonValue> {
    match params {
        Some(v) => member(v, key),
        None => None,
    }
}

/// The command that `method` with `params` asks for; `None` where a
/// required string parameter is missing or has another type.
pub open spec fn command_of(method: Seq<char>, params: Option<JsonValue>) -> Option<Command> {
    if method == "initialize"@ {
        match str_of(param(params, "path"@)) {
            Some(p) => Some(Command::Initialize(p)),
            None => None,
        }
    } else if method == "pause"@ {
        Some(Command::Pause)
    } else if method == "continue"@ {
        match str_of(param(params, "until"@)) {
            Some(u) => Some(Command::Continue(u)),
            None => None,
        }
    } else if method == "disconnect"@ {
        Some(Command::Disconnect)
    } else if method == "next"@ {
        Some(Command::Next)
    } else {
        Some(Command::Unknown(method))
    }
}

/// The text of the string parameter `key`.
fn string_param(params: &Option<JsonValue>, key: &str) -> (r: Result<String, SandboxError>)
    ensures
        r matches Ok(s) ==> str_of(param(*params, key@)) == Some(s@),
        r is Err ==> str_of(param(*params, key@)) is None && r == Err::<String, SandboxError>(
            SandboxError::ParamsNotFound,
        ),
{
    match params {
        Some(v) => match string_member(v, &text(key)) {
            Some(s) => Ok(s),
            None => Err(SandboxError::ParamsNotFound),
        },
        None => Err(SandboxError::ParamsNotFound),
    }
}

impl JsonRpcRequest {
    /// The command that the request asks for. Any method name is accepted
    /// (an unknown one as `Unknown`); a known method fails only for want of
    /// its parameter.
    pub fn as_command(&self) -> (r: Result<DapCommand, SandboxError>)
        ensures
            match command_of(self.method@, self.params) {
                Some(c) => r matches Ok(d) && d@ == c,
                None => r == Err::<DapCommand, SandboxError>(SandboxError::ParamsNotFound),
            },
    {
        if self.method == text("initialize") {
            let polkavm = string_param(&self.params, "path")?;
            Ok(DapCommand::Initialize(InitParams { polkavm }))
        } else if self.method == text("pause") {
            Ok(DapCommand::Pause)
        } else if self.method == text("continue") {
            let until = string_param(&self.params, "until")?;
            Ok(DapCommand::Continue(ContinueParams { until }))
        } else if self.method == text("disconnect") {
            Ok(DapCommand::Disconnect)
        } else if self.method == text("next") {
            Ok(DapCommand::Next)
        } else {
            Ok(DapCommand::Unknown(self.method.clone()))
        }
    }
}

} // verus!
