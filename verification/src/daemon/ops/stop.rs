//! Stopping a space, and opening another window of a running one.
use crate::agent::{checked, exec_app, health_text, shutdown, AgentReply, HealthError};
use crate::daemon::ops::shared::{
    internal, internal_error, nonce_of, not_found, not_running, read_nonce, refusal, refuse,
    reject_unless_running, space_dir_of, space_dir_path, space_or_not_found, text_or_error,
    ErrorCode, Refusal,
};
use crate::daemon::qemu::SpaceState;
use crate::daemon::store::{
    config_document, index_of_id, lemma_index_of_id, render_config, space_with_id, ConfigView, SpaceConfig, Store,
};
use crate::json::{fields_view, object, put, text, Json, JsonView};
use crate::toml::is_written;
use vstd::prelude::*;

verus! {

/// Whether a reply that counts confirms that the data is unmounted, and what is told of it.
pub open spec fn shutdown_outcome(reply: Result<AgentReply, HealthError>) -> (bool, Seq<char>) {
    match reply {
        Ok(r) => if r.ok && r.data_unmounted == Some(true) {
            (
                true,
                match r.detail {
                    Some(d) => d@,
                    None => "том отмонтирован"@,
                },
            )
        } else {
            (
                false,
                match r.detail {
                    Some(d) => d@,
                    None => "агент не подтвердил размонтирование тома"@,
                },
            )
        },
        Err(e) => (false, "агент недостижим: "@ + health_text(e)),
    }
}

/// Whether the stop of a guest is confirmed, by the text of its nonce file and the reply of its
/// agent. Any doubt is none: no nonce, silence, a foreign nonce and a refusal are all the same.
pub open spec fn stop_confirmed(
    nonce: Result<Seq<char>, Seq<char>>,
    reply: Result<AgentReply, HealthError>,
) -> (bool, Seq<char>) {
    match nonce_of(nonce) {
        Err(e) => (false, "nonce спейса не читается: "@ + e),
        Ok(n) => shutdown_outcome(checked(n, reply)),
    }
}

/// What an attempt to stop a guest through its agent came to. `nonce` is the text of its nonce
/// file; where that holds none the agent is not even asked, and the reply has no say.
pub fn shutdown_via_agent(
    nonce: Result<String, String>,
    reply: Result<AgentReply, HealthError>,
) -> (r: (bool, String))
    ensures
        (r.0, r.1@) == stop_confirmed(text_or_error(nonce), reply),
{
    match read_nonce(nonce) {
        Err(e) => (false, "nonce спейса не читается: ".to_owned().concat(e.as_str())),
        Ok(n) => match shutdown(n.as_str(), reply) {
            Ok(a) => if a.ok && a.data_unmounted == Some(true) {
                match a.detail {
                    Some(d) => (true, d),
                    None => (true, "том отмонтирован".to_owned()),
                }
            } else {
                match a.detail {
                    Some(d) => (false, d),
                    None => (false, "агент не подтвердил размонтирование тома".to_owned()),
                }
            },
            Err(e) => (false, "агент недостижим: ".to_owned().concat(e.text().as_str())),
        },
    }
}

// ---------------------------------------------------------------------------------------------
// Stop
// ---------------------------------------------------------------------------------------------

/// What a stop waits for.
#[derive(Debug, Clone, Copy, PartialEq, Eq, Structural)]
pub enum StopPhase {
    /// Whether the machine runs.
    State,
    /// The nonce of the run.
    Nonce,
    /// The reply of the agent.
    Agent,
    /// The end of the machine.
    Killed,
    /// The removal of the tap.
    Tap,
    /// The removal of the passphrase.
    Secret,
    /// The document of the space on disk.
    Config,
    /// Nothing: the stop is over.
    Done,
}

/// The kinds of what a stop does next.
#[derive(Debug, Clone, Copy, PartialEq, Eq, Structural)]
pub enum StopMove {
    ReadNonce,
    Shutdown,
    KillAndReap,
    DropTap,
    RemoveSecret,
    WriteConfig,
    Reply,
    RefuseNotRunning,
    RefuseInternal,
}

/// The course of a stop: the guest is asked first, and the machine is killed only then.
pub open spec fn stop_advance(phase: StopPhase, good: bool) -> (StopPhase, StopMove) {
    match phase {
        StopPhase::State => if good {
            (StopPhase::Nonce, StopMove::ReadNonce)
        } else {
            (StopPhase::Done, StopMove::RefuseNotRunning)
        },
        StopPhase::Nonce => if good {
            (StopPhase::Agent, StopMove::Shutdown)
        } else {
            (StopPhase::Killed, StopMove::KillAndReap)
        },
        StopPhase::Agent => (StopPhase::Killed, StopMove::KillAndReap),
        StopPhase::Killed => (StopPhase::Tap, StopMove::DropTap),
        StopPhase::Tap => if good {
            (StopPhase::Secret, StopMove::RemoveSecret)
        } else {
            (StopPhase::Done, StopMove::RefuseInternal)
        },
        StopPhase::Secret => (StopPhase::Config, StopMove::WriteConfig),
        StopPhase::Config => if good {
            (StopPhase::Done, StopMove::Reply)
        } else {
            (StopPhase::Done, StopMove::RefuseInternal)
        },
        StopPhase::Done => (StopPhase::Done, StopMove::RefuseInternal),
    }
}

/// What a stop wants done.
pub enum StopAction {
    ReadNonce,
    Shutdown { cid: u32 },
    KillAndReap,
    DropTap { cid: u32 },
    RemoveSecret,
    WriteConfig { dir: String, text: String },
    Reply(Json),
    Refuse(Refusal),
}

/// What came of it.
pub enum StopEvent {
    State(SpaceState),
    /// The text of the nonce file, or the words for why it cannot be read.
    Nonce(Result<String, String>),
    /// What the agent answered, whoever it is: its nonce is not looked at yet.
    Agent(Result<AgentReply, HealthError>),
    Flag(bool),
    Done,
}

pub struct StopJob {
    pub state_dir: String,
    pub store: Store,
    pub space: SpaceConfig,
    pub phase: StopPhase,
    /// The text of the nonce file.
    pub nonce: String,
    pub graceful: bool,
    pub detail: String,
}

pub open spec fn stop_good(job: StopJob, event: StopEvent) -> bool {
    match (job.phase, event) {
        (StopPhase::State, StopEvent::State(s)) => s == SpaceState::Running,
        (StopPhase::Nonce, StopEvent::Nonce(read)) => nonce_of(text_or_error(read)) is Ok,
        (StopPhase::Tap, StopEvent::Flag(b)) => b,
        (StopPhase::Config, StopEvent::Flag(b)) => b,
        _ => false,
    }
}

pub open spec fn stop_reply(id: Seq<char>, graceful: bool, detail: Seq<char>) -> JsonView {
    JsonView::Object(
        seq![
            ("id"@, JsonView::Str(id)),
            ("state"@, JsonView::Str("stopped"@)),
            ("clean-shutdown"@, JsonView::Bool(graceful)),
            ("detail"@, JsonView::Str(detail)),
        ],
    )
}

pub open spec fn is_stop_action(a: StopAction, m: StopMove, job: StopJob) -> bool {
    match m {
        StopMove::ReadNonce => a is ReadNonce,
        StopMove::Shutdown => a matches StopAction::Shutdown { cid } && cid == job.space.cid,
        StopMove::KillAndReap => a is KillAndReap,
        StopMove::DropTap => a matches StopAction::DropTap { cid } && cid == job.space.cid,
        StopMove::RemoveSecret => a is RemoveSecret,
        StopMove::WriteConfig => a matches StopAction::WriteConfig { dir, text } && dir@
            == space_dir_of(job.state_dir@, job.space.id@) && is_written(
            text@,
            config_document((ConfigView { clean_shutdown: Some(job.graceful), ..job.space@ })),
        ),
        StopMove::Reply => a matches StopAction::Reply(value) && value@ == stop_reply(
            job.space.id@,
            job.graceful,
            job.detail@,
        ),
        StopMove::RefuseNotRunning => a matches StopAction::Refuse(e) && e@ == not_running(
            job.space.id@,
        ),
        StopMove::RefuseInternal => a matches StopAction::Refuse(e) && e@ == internal(),
    }
}

/// What a stop has learnt from an event, and that the rest of it stays. A stop is clean only if
/// the agent of this run has confirmed it.
pub open spec fn stop_has_learnt(old_job: StopJob, event: StopEvent, job: StopJob) -> bool {
    &&& job.state_dir == old_job.state_dir
    &&& job.space == old_job.space
    &&& match (old_job.phase, event) {
        (StopPhase::Nonce, StopEvent::Nonce(read)) => match nonce_of(text_or_error(read)) {
            Ok(_) => Ok::<Seq<char>, Seq<char>>(job.nonce@) == text_or_error(read) && job.graceful
                == old_job.graceful && job.detail@ == old_job.detail@,
            Err(e) => job.nonce@ == old_job.nonce@ && !job.graceful && job.detail@
                == "nonce спейса не читается: "@ + e,
        },
        (StopPhase::Agent, StopEvent::Agent(reply)) => job.nonce@ == old_job.nonce@ && (
            job.graceful,
            job.detail@,
        ) == stop_confirmed(Ok(old_job.nonce@), reply),
        _ => job.nonce@ == old_job.nonce@ && job.graceful == old_job.graceful && job.detail@
            == old_job.detail@,
    }
    &&& if old_job.phase == StopPhase::Secret {
        match index_of_id(old_job.store@, old_job.space.id@) {
            Some(i) => job.store@ == old_job.store@.update(
                i,
                (ConfigView { clean_shutdown: Some(old_job.graceful), ..old_job.store@[i] }),
            ),
            None => job.store@ == old_job.store@,
        }
    } else {
        job.store@ == old_job.store@
    }
}

impl StopJob {
    /// Takes up the request to stop a space.
    pub fn begin(state_dir: String, store: Store, id: &str) -> (r: Result<StopJob, Refusal>)
        ensures
            match space_with_id(store@, id@) {
                None => r matches Err(e) && e@ == not_found(id@),
                Some(c) => {
                    &&& r matches Ok(job)
                    &&& job.state_dir == state_dir
                    &&& job.store == store
                    &&& job.space@ == c
                    &&& job.phase == StopPhase::State
                    &&& !job.graceful
                    &&& job.nonce@.len() == 0
                    &&& job.detail@.len() == 0
                },
            },
    {
        let space = space_or_not_found(&store, id)?;
        Ok(
            StopJob {
                state_dir,
                store,
                space,
                phase: StopPhase::State,
                nonce: String::new(),
                graceful: false,
                detail: String::new(),
            },
        )
    }

    fn reply(&self) -> (r: StopAction)
        ensures
            is_stop_action(r, StopMove::Reply, *self),
    {
        let mut f: Vec<(String, Json)> = Vec::new();
        assert(fields_view(f@) =~= seq![]);
        put(&mut f, "id", Json::Str(self.space.id.clone()));
        put(&mut f, "state", text("stopped"));
        put(&mut f, "clean-shutdown", Json::Bool(self.graceful));
        put(&mut f, "detail", Json::Str(self.detail.clone()));
        assert(fields_view(f@) =~= stop_reply(
            self.space.id@,
            self.graceful,
            self.detail@,
        )->Object_0);
        StopAction::Reply(object(f))
    }

    /// Goes on from what came of the last action.
    pub fn step(&mut self, event: StopEvent) -> (r: StopAction)
        ensures
            stop_has_learnt(*old(self), event, *final(self)),
            ({
                let (next, m) = stop_advance(old(self).phase, stop_good(*old(self), event));
                final(self).phase == next && is_stop_action(r, m, *final(self))
            }),
    {
        match self.phase {
            StopPhase::State => {
                let state = match event {
                    StopEvent::State(s) => s,
                    _ => SpaceState::Stopped,
                };
                match reject_unless_running(self.space.id.as_str(), state) {
                    Ok(()) => {
                        self.phase = StopPhase::Nonce;
                        StopAction::ReadNonce
                    },
                    Err(e) => {
                        self.phase = StopPhase::Done;
                        StopAction::Refuse(e)
                    },
                }
            },
            StopPhase::Nonce => {
                match event {
                    StopEvent::Nonce(read) => {
                        let raw = match &read {
                            Ok(raw) => raw.clone(),
                            Err(_) => String::new(),
                        };
                        match read_nonce(read) {
                            Ok(_) => {
                                self.nonce = raw;
                                self.phase = StopPhase::Agent;
                                StopAction::Shutdown { cid: self.space.cid }
                            },
                            Err(e) => {
                                self.graceful = false;
                                self.detail = "nonce спейса не читается: ".to_owned().concat(
                                    e.as_str(),
                                );
                                self.phase = StopPhase::Killed;
                                StopAction::KillAndReap
                            },
                        }
                    },
                    _ => {
                        self.phase = StopPhase::Killed;
                        StopAction::KillAndReap
                    },
                }
            },
            StopPhase::Agent => {
                match event {
                    StopEvent::Agent(reply) => {
                        let (graceful, detail) = shutdown_via_agent(
                            Ok(self.nonce.clone()),
                            reply,
                        );
                        self.graceful = graceful;
                        self.detail = detail;
                    },
                    _ => {},
                }
                self.phase = StopPhase::Killed;
                StopAction::KillAndReap
            },
            StopPhase::Killed => {
                self.phase = StopPhase::Tap;
                StopAction::DropTap { cid: self.space.cid }
            },
            StopPhase::Tap => {
                match event {
                    StopEvent::Flag(true) => {
                        self.phase = StopPhase::Secret;
                        StopAction::RemoveSecret
                    },
                    _ => {
                        self.phase = StopPhase::Done;
                        StopAction::Refuse(internal_error())
                    },
                }
            },
            StopPhase::Secret => {
                let recorded = self.store.set_clean_shutdown(
                    self.space.id.as_str(),
                    self.graceful,
                );
                let mut config = self.space.copy();
                config.clean_shutdown = Some(self.graceful);
                assert(config@ =~= ConfigView {
                    clean_shutdown: Some(self.graceful),
                    ..self.space@
                });
                let text = render_config(&config);
                self.phase = StopPhase::Config;
                StopAction::WriteConfig {
                    dir: space_dir_path(self.state_dir.as_str(), self.space.id.as_str()),
                    text,
                }
            },
            StopPhase::Config => {
                match event {
                    StopEvent::Flag(true) => {
                        self.phase = StopPhase::Done;
                        self.reply()
                    },
                    _ => {
                        self.phase = StopPhase::Done;
                        StopAction::Refuse(internal_error())
                    },
                }
            },
            StopPhase::Done => StopAction::Refuse(internal_error()),
        }
    }
}

/// The machine is killed only after its guest was asked to stop, or could not be asked; the
/// space counts as stopped only once its tap is gone.
pub proof fn the_guest_is_asked_first(phase: StopPhase, good: bool)
    ensures
        ({
            let (next, m) = stop_advance(phase, good);
            &&& m == StopMove::KillAndReap ==> phase == StopPhase::Agent || phase
                == StopPhase::Nonce && !good
            &&& m == StopMove::DropTap ==> phase == StopPhase::Killed
            &&& m == StopMove::WriteConfig ==> phase == StopPhase::Secret
            &&& m == StopMove::RemoveSecret ==> phase == StopPhase::Tap && good
            &&& m == StopMove::Reply ==> phase == StopPhase::Config && good
        }),
{
}

/// A stop goes step by step, and a step that fails ends it: only a guest that cannot be asked and a
/// machine that is killed are passed over.
pub proof fn a_stop_goes_in_order(phase: StopPhase, good: bool)
    ensures
        ({
            let (next, m) = stop_advance(phase, good);
            &&& m == StopMove::ReadNonce <==> phase == StopPhase::State && good
            &&& m == StopMove::RefuseNotRunning <==> phase == StopPhase::State && !good
            &&& m == StopMove::Shutdown <==> phase == StopPhase::Nonce && good
            &&& m == StopMove::KillAndReap <==> phase == StopPhase::Agent || phase
                == StopPhase::Nonce && !good
            &&& m == StopMove::DropTap <==> phase == StopPhase::Killed
            &&& m == StopMove::RemoveSecret <==> phase == StopPhase::Tap && good
            &&& m == StopMove::WriteConfig <==> phase == StopPhase::Secret
            &&& m == StopMove::Reply <==> phase == StopPhase::Config && good
            &&& m == StopMove::ReadNonce ==> next == StopPhase::Nonce
            &&& m == StopMove::Shutdown ==> next == StopPhase::Agent
            &&& m == StopMove::KillAndReap ==> next == StopPhase::Killed
            &&& m == StopMove::DropTap ==> next == StopPhase::Tap
            &&& m == StopMove::RemoveSecret ==> next == StopPhase::Secret
            &&& m == StopMove::WriteConfig ==> next == StopPhase::Config
        }),
{
}

/// The store of a stop changes at one point, and there in one field of one record.
pub proof fn a_stop_changes_one_record(old_job: StopJob, event: StopEvent, job: StopJob, i: int)
    requires
        stop_has_learnt(old_job, event, job),
        0 <= i < old_job.store@.len(),
    ensures
        job.store@.len() == old_job.store@.len(),
        old_job.phase != StopPhase::Secret ==> job.store@ == old_job.store@,
        old_job.store@[i].id != old_job.space.id@ ==> job.store@[i] == old_job.store@[i],
        job.store@[i] == (ConfigView {
            clean_shutdown: job.store@[i].clean_shutdown,
            ..old_job.store@[i]
        }),
{
    lemma_index_of_id(old_job.store@, old_job.space.id@);
}

/// A stop becomes clean in one way only: the agent answered with the nonce of the run, and said
/// that it is done and that the data is unmounted.
pub proof fn a_clean_stop_is_confirmed(old_job: StopJob, event: StopEvent, job: StopJob)
    requires
        stop_has_learnt(old_job, event, job),
        job.graceful && !old_job.graceful,
    ensures
        old_job.phase == StopPhase::Agent,
        event matches StopEvent::Agent(Ok(reply)) && {
            &&& nonce_of(Ok(old_job.nonce@)) == Ok::<Seq<char>, Seq<char>>(reply.nonce@)
            &&& reply.ok
            &&& reply.data_unmounted == Some(true)
        },
{
}

/// Whatever a reply says, one with another nonce than that of the run makes no stop clean.
pub proof fn a_foreign_nonce_confirms_nothing(old_job: StopJob, job: StopJob, reply: AgentReply)
    requires
        old_job.phase == StopPhase::Agent,
        stop_has_learnt(old_job, StopEvent::Agent(Ok(reply)), job),
        nonce_of(Ok(old_job.nonce@)) != Ok::<Seq<char>, Seq<char>>(reply.nonce@),
    ensures
        !job.graceful,
{
}

// ---------------------------------------------------------------------------------------------
// Another window
// ---------------------------------------------------------------------------------------------

/// What the opening of a window waits for.
#[derive(Debug, Clone, Copy, PartialEq, Eq, Structural)]
pub enum WindowPhase {
    State,
    Nonce,
    Agent,
    Done,
}

pub enum WindowAction {
    ReadNonce,
    ExecApp { cid: u32 },
    Reply(Json),
    Refuse(Refusal),
}

pub struct WindowJob {
    pub space: SpaceConfig,
    pub phase: WindowPhase,
    /// The nonce of the run, once it is read.
    pub nonce: String,
}

pub open spec fn window_reply(id: Seq<char>, detail: Seq<char>) -> JsonView {
    JsonView::Object(seq![("id"@, JsonView::Str(id)), ("detail"@, JsonView::Str(detail))])
}

/// What follows from an event.
pub open spec fn is_window_step(
    job: WindowJob,
    event: StopEvent,
    next: WindowPhase,
    a: WindowAction,
) -> bool {
    match (job.phase, event) {
        (WindowPhase::State, StopEvent::State(SpaceState::Running)) => next == WindowPhase::Nonce
            && a is ReadNonce,
        (WindowPhase::State, _) => next == WindowPhase::Done && (a matches WindowAction::Refuse(e)
            && e@ == not_running(job.space.id@)),
        (WindowPhase::Nonce, StopEvent::Nonce(read)) => match nonce_of(text_or_error(read)) {
            Ok(_) => next == WindowPhase::Agent && (a matches WindowAction::ExecApp { cid } && cid
                == job.space.cid),
            Err(words) => next == WindowPhase::Done && (a matches WindowAction::Refuse(e) && e@
                == refusal(ErrorCode::AgentTimeout, "nonce спейса не читается: "@ + words)),
        },
        (WindowPhase::Agent, StopEvent::Agent(reply)) => next == WindowPhase::Done && (
        match checked(job.nonce@, reply) {
            Ok(reply) => if reply.ok {
                a matches WindowAction::Reply(value) && value@ == window_reply(
                    job.space.id@,
                    match reply.detail {
                        Some(d) => d@,
                        None => "окно открыто"@,
                    },
                )
            } else {
                a matches WindowAction::Refuse(e) && e@ == refusal(
                    ErrorCode::AgentTimeout,
                    match reply.detail {
                        Some(d) => d@,
                        None => "агент отказался открывать окно"@,
                    },
                )
            },
            Err(error) => a matches WindowAction::Refuse(e) && e@ == refusal(
                ErrorCode::AgentTimeout,
                "агент недостижим: "@ + health_text(error),
            ),
        }),
        _ => next == WindowPhase::Done && (a matches WindowAction::Refuse(e) && e@ == internal()),
    }
}

/// Nor does such a reply open a window.
pub proof fn a_foreign_nonce_opens_nothing(
    job: WindowJob,
    reply: AgentReply,
    next: WindowPhase,
    action: WindowAction,
)
    requires
        job.phase == WindowPhase::Agent,
        is_window_step(job, StopEvent::Agent(Ok(reply)), next, action),
        reply.nonce@ != job.nonce@,
    ensures
        next == WindowPhase::Done,
        action matches WindowAction::Refuse(e) && e@ == refusal(
            ErrorCode::AgentTimeout,
            "агент недостижим: "@ + health_text(HealthError::NonceMismatch),
        ),
{
}

impl WindowJob {
    /// Takes up the request for another window of a space.
    pub fn begin(store: &Store, id: &str) -> (r: Result<WindowJob, Refusal>)
        ensures
            match space_with_id(store@, id@) {
                None => r matches Err(e) && e@ == not_found(id@),
                Some(c) => r matches Ok(job) && job.space@ == c && job.phase == WindowPhase::State
                    && job.nonce@.len() == 0,
            },
    {
        let space = space_or_not_found(store, id)?;
        Ok(WindowJob { space, phase: WindowPhase::State, nonce: String::new() })
    }

    /// What follows from a reply that counts.
    fn opened(&self, reply: AgentReply) -> (r: WindowAction)
        ensures
            if reply.ok {
                r matches WindowAction::Reply(value) && value@ == window_reply(
                    self.space.id@,
                    match reply.detail {
                        Some(d) => d@,
                        None => "окно открыто"@,
                    },
                )
            } else {
                r matches WindowAction::Refuse(e) && e@ == refusal(
                    ErrorCode::AgentTimeout,
                    match reply.detail {
                        Some(d) => d@,
                        None => "агент отказался открывать окно"@,
                    },
                )
            },
    {
        if !reply.ok {
            let detail = match reply.detail {
                Some(d) => d,
                None => "агент отказался открывать окно".to_owned(),
            };
            return WindowAction::Refuse(refuse(ErrorCode::AgentTimeout, detail));
        }
        let detail = match reply.detail {
            Some(d) => d,
            None => "окно открыто".to_owned(),
        };
        let mut f: Vec<(String, Json)> = Vec::new();
        assert(fields_view(f@) =~= seq![]);
        put(&mut f, "id", Json::Str(self.space.id.clone()));
        put(&mut f, "detail", text(detail.as_str()));
        assert(fields_view(f@) =~= window_reply(self.space.id@, detail@)->Object_0);
        WindowAction::Reply(object(f))
    }

    /// Goes on from what came of the last action.
    pub fn step(&mut self, event: StopEvent) -> (r: WindowAction)
        ensures
            final(self).space == old(self).space,
            final(self).nonce@ == (match (old(self).phase, event) {
                (WindowPhase::Nonce, StopEvent::Nonce(read)) => match nonce_of(
                    text_or_error(read),
                ) {
                    Ok(n) => n,
                    Err(_) => old(self).nonce@,
                },
                _ => old(self).nonce@,
            }),
            is_window_step(*old(self), event, final(self).phase, r),
    {
        let phase = self.phase;
        self.phase = WindowPhase::Done;
        match (phase, event) {
            (WindowPhase::State, StopEvent::State(SpaceState::Running)) => {
                self.phase = WindowPhase::Nonce;
                WindowAction::ReadNonce
            },
            (WindowPhase::State, _) => {
                match reject_unless_running(self.space.id.as_str(), SpaceState::Stopped) {
                    Err(e) => WindowAction::Refuse(e),
                    Ok(()) => WindowAction::ReadNonce,
                }
            },
            (WindowPhase::Nonce, StopEvent::Nonce(read)) => match read_nonce(read) {
                Ok(nonce) => {
                    self.phase = WindowPhase::Agent;
                    self.nonce = nonce;
                    WindowAction::ExecApp { cid: self.space.cid }
                },
                Err(words) => WindowAction::Refuse(
                    refuse(
                        ErrorCode::AgentTimeout,
                        "nonce спейса не читается: ".to_owned().concat(words.as_str()),
                    ),
                ),
            },
            (WindowPhase::Agent, StopEvent::Agent(reply)) => {
                match exec_app(self.nonce.as_str(), reply) {
                    Ok(reply) => self.opened(reply),
                    Err(error) => WindowAction::Refuse(
                        refuse(
                            ErrorCode::AgentTimeout,
                            "агент недостижим: ".to_owned().concat(error.text().as_str()),
                        ),
                    ),
                }
            },
            _ => WindowAction::Refuse(internal_error()),
        }
    }
}

} // verus!
