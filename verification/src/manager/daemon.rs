//! Requests to the daemon, and what comes back.
use crate::manager::view::Reply;
use crate::text::{chars_of, head_to, str_equal, string_of};
use vstd::prelude::*;

verus! {

pub const DEFAULT_SOCKET: &'static str = "/run/miyorios/control.sock";

/// Seconds within which a frame of an operation has to come.
pub const FRAME_TIMEOUT_SECS: u64 = 120;

/// How much of a line of progress is kept.
pub const PROGRESS_CHARS: usize = 1024;

pub enum Update {
    Progress { request_id: u64, text: String },
    Done { request_id: u64, reply: Result<Reply, String> },
}

/// Where the daemon listens.
pub struct Daemon {
    pub socket: String,
}

impl Daemon {
    pub fn new(socket: String) -> (r: Daemon)
        ensures
            r.socket@ == socket@,
    {
        Daemon { socket }
    }
}

pub open spec fn timeout_of(op: Seq<char>) -> u64 {
    if op == "describe"@ {
        8
    } else if op == "profiles"@ || op == "net-status"@ {
        10
    } else if op == "list"@ {
        60
    } else {
        FRAME_TIMEOUT_SECS
    }
}

/// Seconds within which a request has to be answered. A read does not wait as long as an
/// operation.
pub fn request_timeout(op: &str) -> (r: u64)
    ensures
        r == timeout_of(op@),
{
    if str_equal(op, "describe") {
        8
    } else if str_equal(op, "profiles") || str_equal(op, "net-status") {
        10
    } else if str_equal(op, "list") {
        60
    } else {
        FRAME_TIMEOUT_SECS
    }
}

/// What is kept of a line of progress.
pub open spec fn cut(text: Seq<char>) -> Seq<char> {
    if text.len() > PROGRESS_CHARS {
        text.take(PROGRESS_CHARS as int)
    } else {
        text
    }
}

pub fn cut_progress(text: &str) -> (r: String)
    ensures
        r@ == cut(text@),
{
    let chars = chars_of(text);
    if chars.len() > PROGRESS_CHARS {
        string_of(&head_to(&chars, PROGRESS_CHARS))
    } else {
        text.to_owned()
    }
}

/// The answer to a request among what has come: that of another one does not count.
pub fn answer_to(id: u64, update: Update) -> (r: Option<Result<Reply, String>>)
    ensures
        r == (match update {
            Update::Done { request_id, reply } => if request_id == id {
                Some(reply)
            } else {
                None
            },
            Update::Progress { .. } => None,
        }),
{
    match update {
        Update::Done { request_id, reply } => {
            if request_id == id {
                Some(reply)
            } else {
                None
            }
        },
        Update::Progress { .. } => None,
    }
}

} // verus!
