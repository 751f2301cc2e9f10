//! The frames between the host and the agent of a guest, and what the host makes of a reply.
//!
//! The guest is not trusted: a reply counts only if it carries the nonce of the boot.
use crate::daemon::qemu::SpaceState;
use crate::text::{opt_text, str_equal, str_trim, trim};
use vstd::prelude::*;

verus! {

pub const AGENT_PORT: u32 = 1701;

/// Seconds within which the agent has to answer that it is alive.
pub const AGENT_HEALTH_TIMEOUT: u64 = 2;

/// Seconds within which it has to have unmounted its data.
pub const AGENT_SHUTDOWN_TIMEOUT: u64 = 5;

/// Seconds within which it has to have started the application.
pub const AGENT_EXEC_APP_TIMEOUT: u64 = 2;

#[derive(Debug, Clone, Copy, PartialEq, Eq, Structural)]
pub enum AgentRequest {
    Health,
    Shutdown,
    ExecApp,
}

#[derive(Debug, PartialEq, Eq)]
pub struct AgentReply {
    pub nonce: String,
    pub ok: bool,
    pub detail: Option<String>,
    pub data_unmounted: Option<bool>,
}

#[verifier::ext_equal]
pub struct ReplyView {
    pub nonce: Seq<char>,
    pub ok: bool,
    pub detail: Option<Seq<char>>,
    pub data_unmounted: Option<bool>,
}

impl View for AgentReply {
    type V = ReplyView;

    open spec fn view(&self) -> ReplyView {
        ReplyView {
            nonce: self.nonce@,
            ok: self.ok,
            detail: opt_text(self.detail),
            data_unmounted: self.data_unmounted,
        }
    }
}

#[derive(Debug, PartialEq, Eq)]
pub enum HealthError {
    Timeout,
    NonceMismatch,
    Io(String),
}

pub open spec fn health_text(e: HealthError) -> Seq<char> {
    match e {
        HealthError::Timeout => "агент не ответил за отведённое время"@,
        HealthError::NonceMismatch => "агент ответил чужим nonce"@,
        HealthError::Io(message) => message@,
    }
}

impl HealthError {
    /// The words for the failure.
    pub fn text(&self) -> (r: String)
        ensures
            r@ == health_text(*self),
    {
        match self {
            HealthError::Timeout => "агент не ответил за отведённое время".to_owned(),
            HealthError::NonceMismatch => "агент ответил чужим nonce".to_owned(),
            HealthError::Io(message) => message.clone(),
        }
    }
}

/// A failure of the transport: whether it was one of time, and its words.
pub fn to_health_error(timed_out: bool, message: &str) -> (r: HealthError)
    ensures
        timed_out ==> r is Timeout,
        !timed_out ==> (r matches HealthError::Io(m) && m@ == message@),
{
    if timed_out {
        HealthError::Timeout
    } else {
        HealthError::Io(message.to_owned())
    }
}

/// A failure with a chain of causes: it is one of time if one of the causes is.
pub fn read_error_to_health_error(causes_timed_out: &Vec<bool>, message: &str) -> (r: HealthError)
    ensures
        causes_timed_out@.contains(true) ==> r is Timeout,
        !causes_timed_out@.contains(true) ==> (r matches HealthError::Io(m) && m@ == message@),
{
    for i in 0..causes_timed_out.len()
        invariant
            forall|j: int| 0 <= j < i ==> !causes_timed_out@[j],
    {
        if causes_timed_out[i] {
            assert(causes_timed_out@[i as int]);
            return HealthError::Timeout;
        }
    }
    HealthError::Io(message.to_owned())
}

/// A reply counts only if it carries the nonce of the run: an agent that answers with another one
/// is not the agent that was asked.
pub open spec fn checked(nonce: Seq<char>, reply: Result<AgentReply, HealthError>) -> Result<
    AgentReply,
    HealthError,
> {
    match reply {
        Ok(a) => if a.nonce@ == nonce {
            Ok(a)
        } else {
            Err(HealthError::NonceMismatch)
        },
        Err(e) => Err(e),
    }
}

/// What a call of the agent gives: the reply as it came, unless it carries another nonce.
pub fn call_agent(expected_nonce: &str, reply: Result<AgentReply, HealthError>) -> (r: Result<
    AgentReply,
    HealthError,
>)
    ensures
        r == checked(expected_nonce@, reply),
{
    let reply = reply?;
    if !str_equal(reply.nonce.as_str(), expected_nonce) {
        return Err(HealthError::NonceMismatch);
    }
    Ok(reply)
}

/// Whether the agent is alive.
pub fn health(expected_nonce: &str, reply: Result<AgentReply, HealthError>) -> (r: Result<
    (),
    HealthError,
>)
    ensures
        r == (match checked(expected_nonce@, reply) {
            Ok(_) => Ok::<(), HealthError>(()),
            Err(e) => Err(e),
        }),
{
    match call_agent(expected_nonce, reply) {
        Ok(_) => Ok(()),
        Err(e) => Err(e),
    }
}

/// The answer to the request to stop.
pub fn shutdown(expected_nonce: &str, reply: Result<AgentReply, HealthError>) -> (r: Result<
    AgentReply,
    HealthError,
>)
    ensures
        r == checked(expected_nonce@, reply),
{
    call_agent(expected_nonce, reply)
}

/// The answer to the request to start the application.
pub fn exec_app(expected_nonce: &str, reply: Result<AgentReply, HealthError>) -> (r: Result<
    AgentReply,
    HealthError,
>)
    ensures
        r == checked(expected_nonce@, reply),
{
    call_agent(expected_nonce, reply)
}

/// The state of a space as it is reported: a running machine whose agent does not answer with the
/// nonce of the run, or whose nonce cannot be read, is not a running space. `asked` is the text of
/// the nonce file and what the agent answered; nothing where the file cannot be read.
pub fn observed_state(
    process: SpaceState,
    asked: Option<(String, Result<AgentReply, HealthError>)>,
) -> (r: SpaceState)
    ensures
        r == (if process != SpaceState::Running {
            process
        } else if asked matches Some((nonce, reply)) && checked(trim(nonce@), reply) is Ok {
            SpaceState::Running
        } else {
            SpaceState::Unresponsive
        }),
{
    match process {
        SpaceState::Running => match asked {
            Some((nonce, reply)) => match health(str_trim(nonce.as_str()).as_str(), reply) {
                Ok(()) => SpaceState::Running,
                Err(_) => SpaceState::Unresponsive,
            },
            None => SpaceState::Unresponsive,
        },
        other => other,
    }
}

} // verus!
