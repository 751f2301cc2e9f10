//! Starting a space.
use crate::agent::{checked, exec_app, health, health_text, AgentReply, HealthError};
use crate::daemon::net::BRIDGE;
use crate::daemon::ops::shared::{
    generate_nonce, hex_text, internal, internal_error, is_wrong_passphrase, no_profile,
    no_template, not_found, passphrase_problem, qemu_died_of_wrong_passphrase, refusal, refuse,
    require_passphrase_matches_encryption, space_dir_of, space_dir_path, space_or_not_found,
    tail_of, tail_text, template_dir_of, template_dir_path, template_missing, ErrorCode, Manifest,
    ManifestRead, Refusal, RefusalView,
};
use crate::daemon::qemu::{build_argv, machine_argv, SpaceRun, SpaceState};
use crate::daemon::store::{space_with_id, SpaceConfig, Store};
use crate::json::{fields_view, object, put, text, Json, JsonView};
use crate::paths::{join_path, path_join};
use crate::text::{opt_text, str_equal, texts};
use vstd::prelude::*;

verus! {

/// Milliseconds in which a machine that cannot open its disk has died.
pub const SPAWN_SETTLE_MILLIS: u64 = 400;

/// Seconds for which the agent of a started machine is waited for.
pub const AGENT_START_DEADLINE_SECS: u64 = 20;

/// Milliseconds between two attempts to reach it.
pub const AGENT_START_POLL_MILLIS: u64 = 300;

/// Random bytes in a nonce.
pub const NONCE_BYTES: usize = 16;

/// What a start waits for.
#[derive(Debug, Clone, Copy, PartialEq, Eq, Structural)]
pub enum StartPhase {
    /// Whether the machine runs already.
    State,
    /// Whether the bridge is there.
    Bridge,
    /// The manifest of the profile.
    Manifest,
    /// Whether the system image is there.
    Template,
    /// The group of the virtual machine device.
    Group,
    /// Random bytes.
    Nonce,
    /// The directory of the run, and the nonce in it.
    RunDir,
    /// The removal of a tap that was left over.
    Reap,
    /// The tap.
    Tap,
    /// The file of the passphrase.
    Secret,
    /// The machine.
    Spawn,
    /// Whether it survives its first moments.
    Settle,
    /// An answer of the agent.
    Health,
    /// Whether the machine still lives while its agent is silent.
    Alive,
    /// The end of a pause.
    Pause,
    /// The start of the application.
    Exec,
    /// Whether the machine lives although the application did not start.
    Verdict,
    /// The removal of what had been set up.
    Undone,
    /// The same, and the log of a machine that died at once.
    Dead,
    /// The same, and the log of a machine that died while it was waited for.
    Lost,
    /// Nothing: the start is over.
    Done,
}

/// How what was waited for came out.
#[derive(Debug, Clone, Copy, PartialEq, Eq, Structural)]
pub enum Signal {
    Good,
    Bad,
    /// Too late, or not to be read.
    Late,
}

/// The kinds of what a start does next.
#[derive(Debug, Clone, Copy, PartialEq, Eq, Structural)]
pub enum Move {
    AskBridge,
    AskManifest,
    AskTemplate,
    AskGroup,
    AskRandom,
    MakeRunDir,
    ReapTap,
    RaiseTap,
    WriteSecret,
    Spawn,
    Settle,
    AskHealth,
    AskAlive,
    Pause,
    ExecApp,
    /// Takes down the tap and removes the secret, or what was written of it.
    UndoTapAndSecret,
    /// The same, and the pid file of a machine that died at once; reads its log.
    UndoDead,
    /// The same for a machine that died later, which is reaped first; reads its log.
    UndoLost,
    ReplyRunning,
    RefuseRunning,
    RefuseNoBridge,
    RefuseNoProfile,
    RefuseNoTemplate,
    RefuseInternal,
    RefuseWrongPassphrase,
    RefuseDead,
    RefuseLost,
}

/// The course of a start.
pub open spec fn advance(phase: StartPhase, signal: Signal, encrypted: bool) -> (StartPhase, Move) {
    let good = signal == Signal::Good;
    match phase {
        StartPhase::State => if good {
            (StartPhase::Bridge, Move::AskBridge)
        } else {
            (StartPhase::Done, Move::RefuseRunning)
        },
        StartPhase::Bridge => if good {
            (StartPhase::Manifest, Move::AskManifest)
        } else {
            (StartPhase::Done, Move::RefuseNoBridge)
        },
        StartPhase::Manifest => match signal {
            Signal::Good => (StartPhase::Template, Move::AskTemplate),
            Signal::Bad => (StartPhase::Done, Move::RefuseNoProfile),
            Signal::Late => (StartPhase::Done, Move::RefuseInternal),
        },
        StartPhase::Template => if good {
            (StartPhase::Group, Move::AskGroup)
        } else {
            (StartPhase::Done, Move::RefuseNoTemplate)
        },
        StartPhase::Group => if good {
            (StartPhase::Nonce, Move::AskRandom)
        } else {
            (StartPhase::Done, Move::RefuseInternal)
        },
        StartPhase::Nonce => if good {
            (StartPhase::RunDir, Move::MakeRunDir)
        } else {
            (StartPhase::Done, Move::RefuseInternal)
        },
        StartPhase::RunDir => if good {
            (StartPhase::Reap, Move::ReapTap)
        } else {
            (StartPhase::Done, Move::RefuseInternal)
        },
        StartPhase::Reap => if good {
            (StartPhase::Tap, Move::RaiseTap)
        } else {
            (StartPhase::Done, Move::RefuseInternal)
        },
        StartPhase::Tap => if !good {
            (StartPhase::Done, Move::RefuseInternal)
        } else if encrypted {
            (StartPhase::Secret, Move::WriteSecret)
        } else {
            (StartPhase::Spawn, Move::Spawn)
        },
        StartPhase::Secret => if good {
            (StartPhase::Spawn, Move::Spawn)
        } else {
            (StartPhase::Undone, Move::UndoTapAndSecret)
        },
        StartPhase::Spawn => if good {
            (StartPhase::Settle, Move::Settle)
        } else {
            (StartPhase::Undone, Move::UndoTapAndSecret)
        },
        StartPhase::Settle => if good {
            (StartPhase::Health, Move::AskHealth)
        } else {
            (StartPhase::Dead, Move::UndoDead)
        },
        StartPhase::Health => match signal {
            Signal::Good => (StartPhase::Exec, Move::ExecApp),
            Signal::Bad => (StartPhase::Alive, Move::AskAlive),
            Signal::Late => (StartPhase::Verdict, Move::AskAlive),
        },
        StartPhase::Alive => if good {
            (StartPhase::Pause, Move::Pause)
        } else {
            (StartPhase::Verdict, Move::AskAlive)
        },
        StartPhase::Pause => (StartPhase::Health, Move::AskHealth),
        StartPhase::Exec => if good {
            (StartPhase::Done, Move::ReplyRunning)
        } else {
            (StartPhase::Verdict, Move::AskAlive)
        },
        StartPhase::Verdict => if good {
            (StartPhase::Done, Move::ReplyRunning)
        } else {
            (StartPhase::Lost, Move::UndoLost)
        },
        StartPhase::Undone => (StartPhase::Done, Move::RefuseInternal),
        StartPhase::Dead => (
            StartPhase::Done,
            if good {
                Move::RefuseWrongPassphrase
            } else {
                Move::RefuseDead
            },
        ),
        StartPhase::Lost => (
            StartPhase::Done,
            if good {
                Move::RefuseWrongPassphrase
            } else {
                Move::RefuseLost
            },
        ),
        StartPhase::Done => (StartPhase::Done, Move::RefuseInternal),
    }
}

/// The tap of the space was raised and is still up.
pub open spec fn holds_tap(phase: StartPhase) -> bool {
    match phase {
        StartPhase::Secret => true,
        StartPhase::Spawn => true,
        StartPhase::Settle => true,
        StartPhase::Health => true,
        StartPhase::Alive => true,
        StartPhase::Pause => true,
        StartPhase::Exec => true,
        StartPhase::Verdict => true,
        _ => false,
    }
}

/// The passphrase of the space lies in a file, or is being written to one.
pub open spec fn holds_secret(phase: StartPhase, encrypted: bool) -> bool {
    encrypted && holds_tap(phase)
}

pub open spec fn is_refusal(m: Move) -> bool {
    match m {
        Move::RefuseRunning => true,
        Move::RefuseNoBridge => true,
        Move::RefuseNoProfile => true,
        Move::RefuseNoTemplate => true,
        Move::RefuseInternal => true,
        Move::RefuseWrongPassphrase => true,
        Move::RefuseDead => true,
        Move::RefuseLost => true,
        _ => false,
    }
}

pub open spec fn drops_tap(m: Move) -> bool {
    m == Move::UndoTapAndSecret || m == Move::UndoDead || m == Move::UndoLost
}

pub open spec fn drops_secret(m: Move) -> bool {
    m == Move::UndoTapAndSecret || m == Move::UndoDead || m == Move::UndoLost
}

/// A start that is refused takes back the tap that it raised and the passphrase that it wrote or
/// began to write: it is never refused while one of them is there, and it lets go of them only by
/// removing them or by replying that the space runs. A tap that could not be raised is not
/// touched.
pub proof fn a_refused_start_takes_back(phase: StartPhase, signal: Signal, encrypted: bool)
    ensures
        ({
            let (next, m) = advance(phase, signal, encrypted);
            &&& is_refusal(m) ==> !holds_tap(phase) && !holds_secret(phase, encrypted)
            &&& is_refusal(m) ==> next == StartPhase::Done
            &&& holds_tap(phase) && !holds_tap(next) ==> drops_tap(m) || m == Move::ReplyRunning
            &&& holds_secret(phase, encrypted) && !holds_secret(next, encrypted) ==> drops_secret(m)
                || m == Move::ReplyRunning
            &&& m == Move::ReplyRunning ==> holds_tap(phase)
        }),
{
}

/// What a start has left on the host: the tap that was raised, and a passphrase that was written,
/// or of which a part may have been.
pub struct Traces {
    pub tap: bool,
    pub secret: bool,
}

pub open spec fn traces_after(
    t: Traces,
    phase: StartPhase,
    signal: Signal,
    encrypted: bool,
) -> Traces {
    let m = advance(phase, signal, encrypted).1;
    Traces {
        tap: (t.tap || phase == StartPhase::Tap && signal == Signal::Good) && !drops_tap(m),
        secret: (t.secret || m == Move::WriteSecret) && !drops_secret(m),
    }
}

/// Where a start stands after a course of signals, what it has left, and what it does next.
pub open spec fn course(signals: Seq<Signal>, encrypted: bool) -> (StartPhase, Traces, Option<Move>)
    decreases signals.len(),
{
    if signals.len() == 0 {
        (StartPhase::State, Traces { tap: false, secret: false }, None)
    } else {
        let (phase, traces, _) = course(signals.drop_last(), encrypted);
        let (next, m) = advance(phase, signals.last(), encrypted);
        (next, traces_after(traces, phase, signals.last(), encrypted), Some(m))
    }
}

proof fn lemma_traces(signals: Seq<Signal>, encrypted: bool)
    ensures
        ({
            let (phase, traces, _) = course(signals, encrypted);
            phase != StartPhase::Done ==> traces.tap == holds_tap(phase) && traces.secret
                == holds_secret(phase, encrypted)
        }),
    decreases signals.len(),
{
    if signals.len() > 0 {
        lemma_traces(signals.drop_last(), encrypted);
    }
}

/// Whatever happens on the way: once a start is refused, the tap that it raised is down and no
/// passphrase lies on the host.
pub proof fn a_refused_start_leaves_no_trace(signals: Seq<Signal>, encrypted: bool)
    requires
        signals.len() > 0,
        course(signals.drop_last(), encrypted).0 != StartPhase::Done,
        course(signals, encrypted).2 matches Some(m) && is_refusal(m),
    ensures
        !course(signals, encrypted).1.tap,
        !course(signals, encrypted).1.secret,
{
    lemma_traces(signals.drop_last(), encrypted);
}

/// A machine is started only once everything that it needs is there, and an encrypted one only
/// with its passphrase in place.
pub proof fn a_machine_is_started_last(phase: StartPhase, signal: Signal, encrypted: bool)
    ensures
        ({
            let (next, m) = advance(phase, signal, encrypted);
            &&& m == Move::Spawn ==> signal == Signal::Good && phase == (if encrypted {
                StartPhase::Secret
            } else {
                StartPhase::Tap
            }) || phase == StartPhase::Secret && signal == Signal::Good
            &&& m == Move::RaiseTap ==> phase == StartPhase::Reap && signal == Signal::Good
            &&& m == Move::ReapTap ==> phase == StartPhase::RunDir && signal == Signal::Good
        }),
{
}

// ---------------------------------------------------------------------------------------------
// The job
// ---------------------------------------------------------------------------------------------

/// One thing that is removed after a failure; that it fails too changes nothing.
#[derive(Debug, Clone, Copy, PartialEq, Eq, Structural)]
pub enum CleanUp {
    KillAndReap,
    DropTap,
    RemovePidFile,
    RemoveSecret,
}

/// What a start wants done.
pub enum StartAction {
    AskBridge,
    ReadManifest { profile: String },
    CheckFile { path: String },
    AskGroup,
    DrawRandom,
    MakeRunDir { dir: String, nonce: String },
    ReapTap { cid: u32 },
    RaiseTap { cid: u32, uid: u32 },
    WriteSecret { uid: u32, passphrase: String },
    Spawn { run: SpaceRun, argv: Vec<String> },
    Settle,
    AskHealth { cid: u32 },
    AskAlive,
    /// Tells the client that the agent is waited for, and waits.
    Pause { progress: String },
    ExecApp { cid: u32 },
    CleanUp { steps: Vec<CleanUp>, read_log: bool },
    Reply(Json),
    Refuse(Refusal),
}

/// What came of it.
pub enum StartEvent {
    State(SpaceState),
    Flag(bool),
    Manifest(ManifestRead),
    Number(Option<u32>),
    Bytes(Option<Vec<u8>>),
    Text(Option<String>),
    /// What the agent answered, whoever it is, and whether there is time left.
    Health { reply: Result<AgentReply, HealthError>, in_time: bool },
    /// What it answered to the start of the application.
    Agent(Result<AgentReply, HealthError>),
    Done,
}

pub struct StartJob {
    pub state_dir: String,
    pub run_dir: String,
    pub space: SpaceConfig,
    pub passphrase: Option<String>,
    pub phase: StartPhase,
    pub manifest: Manifest,
    pub kvm_gid: u32,
    pub nonce: String,
    pub secret_file: Option<String>,
    pub report: String,
}

/// What the agent's reply to the start of the application is reported as.
pub open spec fn exec_report(reply: Result<AgentReply, HealthError>) -> Seq<char> {
    match reply {
        Ok(r) => if r.ok {
            "started"@
        } else {
            match r.detail {
                Some(d) => d@,
                None => "агент отказался запускать приложение"@,
            }
        },
        Err(e) => "не удалось запустить приложение: "@ + health_text(e),
    }
}

/// What is reported of an agent that stayed silent to the end.
pub open spec fn late_report(error: HealthError) -> Seq<char> {
    "агент не ответил за отведённое время: "@ + health_text(error)
}

/// How an event answers what the start waits for. What does not answer it counts as a failure,
/// and so does an agent that answers with another nonce than that of the run.
pub open spec fn signal_of(phase: StartPhase, nonce: Seq<char>, event: StartEvent) -> Signal {
    match (phase, event) {
        (StartPhase::State, StartEvent::State(s)) => if s != SpaceState::Running {
            Signal::Good
        } else {
            Signal::Bad
        },
        (StartPhase::Manifest, StartEvent::Manifest(read)) => match read {
            ManifestRead::Found(_) => Signal::Good,
            ManifestRead::Missing => Signal::Bad,
            ManifestRead::Unreadable => Signal::Late,
        },
        (StartPhase::Manifest, _) => Signal::Late,
        (StartPhase::Group, StartEvent::Number(n)) => if n is Some {
            Signal::Good
        } else {
            Signal::Bad
        },
        (StartPhase::Nonce, StartEvent::Bytes(b)) => if b is Some {
            Signal::Good
        } else {
            Signal::Bad
        },
        (StartPhase::Secret, StartEvent::Text(t)) => if t is Some {
            Signal::Good
        } else {
            Signal::Bad
        },
        (StartPhase::Health, StartEvent::Health { reply, in_time }) => if checked(nonce, reply)
            is Ok {
            Signal::Good
        } else if in_time {
            Signal::Bad
        } else {
            Signal::Late
        },
        (StartPhase::Exec, StartEvent::Agent(reply)) => if exec_report(checked(nonce, reply))
            == "started"@ {
            Signal::Good
        } else {
            Signal::Bad
        },
        (StartPhase::Dead, StartEvent::Text(t)) => if t matches Some(log) && is_wrong_passphrase(
            tail_text(log@),
        ) {
            Signal::Good
        } else {
            Signal::Bad
        },
        (StartPhase::Lost, StartEvent::Text(t)) => if t matches Some(log) && is_wrong_passphrase(
            tail_text(log@),
        ) {
            Signal::Good
        } else {
            Signal::Bad
        },
        (
            StartPhase::Bridge
            | StartPhase::Template
            | StartPhase::RunDir
            | StartPhase::Reap
            | StartPhase::Tap
            | StartPhase::Spawn
            | StartPhase::Settle
            | StartPhase::Alive
            | StartPhase::Verdict,
            StartEvent::Flag(b),
        ) => if b {
            Signal::Good
        } else {
            Signal::Bad
        },
        _ => Signal::Bad,
    }
}

pub open spec fn start_refusal(m: Move, job: StartJob) -> RefusalView {
    let id = job.space.id@;
    match m {
        Move::RefuseRunning => refusal(
            ErrorCode::SpaceRunning,
            "спейс \""@ + id + "\" уже запущен"@,
        ),
        Move::RefuseNoBridge => refusal(
            ErrorCode::NoBridge,
            "нет моста \""@ + BRIDGE@
                + "\": сначала подними фикстуру — sudo bash components/net/net-fixture.sh up"@,
        ),
        Move::RefuseNoProfile => no_profile(job.space.profile@),
        Move::RefuseNoTemplate => no_template(
            template_dir_of(job.state_dir@, job.space.profile@, job.space.digest@),
        ),
        Move::RefuseWrongPassphrase => refusal(
            ErrorCode::WrongPassphrase,
            "неверный пароль спейса \""@ + id + "\""@,
        ),
        Move::RefuseDead => refusal(
            ErrorCode::Internal,
            "QEMU спейса \""@ + id
                + "\" завершился сразу после запуска; причина в журнале последнего запуска"@,
        ),
        Move::RefuseLost => refusal(
            ErrorCode::Internal,
            "QEMU спейса \""@ + id
                + "\" умер во время запуска; причина в журнале последнего запуска"@,
        ),
        _ => internal(),
    }
}

/// The reply to a start that succeeded.
pub open spec fn start_reply(id: Seq<char>, cid: u32, app: Seq<char>) -> JsonView {
    JsonView::Object(
        seq![
            ("id"@, JsonView::Str(id)),
            ("state"@, JsonView::Str("running"@)),
            ("cid"@, JsonView::Unsigned(cid as u64)),
            ("app"@, JsonView::Str(app)),
        ],
    )
}

/// The machine that a job starts.
pub open spec fn is_run_of(run: SpaceRun, job: StartJob) -> bool {
    let space_dir = space_dir_of(job.state_dir@, job.space.id@);
    &&& run.id@ == job.space.id@
    &&& run.cid == job.space.cid
    &&& run.uid == job.space.uid
    &&& run.template_dir@ == template_dir_of(job.state_dir@, job.space.profile@, job.space.digest@)
    &&& run.overlay@ == join_path(space_dir, "system-overlay.qcow2"@)
    &&& run.data@ == join_path(space_dir, "data.qcow2"@)
    &&& run.data_mb == job.manifest.data_mb
    &&& run.memory_mb == job.manifest.memory_mb
    &&& run.cpus == job.manifest.cpus
    &&& run.isolation_level@ == job.manifest.isolation_level@
    &&& run.gpu@ == job.manifest.isolation_gpu@
    &&& run.nonce@ == job.nonce@
    &&& run.app_command@ == job.manifest.app_command@
    &&& run.kvm_gid == job.kvm_gid
}

/// The action of a kind, for a job.
pub open spec fn is_action(a: StartAction, m: Move, job: StartJob) -> bool {
    match m {
        Move::AskBridge => a is AskBridge,
        Move::AskManifest => a matches StartAction::ReadManifest { profile } && profile@
            == job.space.profile@,
        Move::AskTemplate => a matches StartAction::CheckFile { path } && path@ == join_path(
            template_dir_of(job.state_dir@, job.space.profile@, job.space.digest@),
            "root.qcow2"@,
        ),
        Move::AskGroup => a is AskGroup,
        Move::AskRandom => a is DrawRandom,
        Move::MakeRunDir => a matches StartAction::MakeRunDir { dir, nonce } && dir@ == join_path(
            job.run_dir@,
            job.space.id@,
        ) && nonce@ == job.nonce@,
        Move::ReapTap => a matches StartAction::ReapTap { cid } && cid == job.space.cid,
        Move::RaiseTap => a matches StartAction::RaiseTap { cid, uid } && cid == job.space.cid
            && uid == job.space.uid,
        Move::WriteSecret => a matches StartAction::WriteSecret { uid, passphrase } && uid
            == job.space.uid && Some(passphrase@) == opt_text(job.passphrase),
        Move::Spawn => a matches StartAction::Spawn { run, argv } && is_run_of(run, job) && texts(
            argv@,
        ) == machine_argv(run, opt_text(job.secret_file)),
        Move::Settle => a is Settle,
        Move::AskHealth => a matches StartAction::AskHealth { cid } && cid == job.space.cid,
        Move::AskAlive => a is AskAlive,
        Move::Pause => a matches StartAction::Pause { progress } && progress@
            == "ждём агента гостя"@,
        Move::ExecApp => a matches StartAction::ExecApp { cid } && cid == job.space.cid,
        Move::UndoTapAndSecret => a matches StartAction::CleanUp { steps, read_log } && steps@
            == seq![CleanUp::DropTap, CleanUp::RemoveSecret] && !read_log,
        Move::UndoDead => a matches StartAction::CleanUp { steps, read_log } && steps@ == seq![
            CleanUp::DropTap,
            CleanUp::RemovePidFile,
            CleanUp::RemoveSecret,
        ] && read_log,
        Move::UndoLost => a matches StartAction::CleanUp { steps, read_log } && steps@ == seq![
            CleanUp::KillAndReap,
            CleanUp::DropTap,
            CleanUp::RemoveSecret,
        ] && read_log,
        Move::ReplyRunning => a matches StartAction::Reply(value) && value@ == start_reply(
            job.space.id@,
            job.space.cid,
            job.report@,
        ),
        _ => a matches StartAction::Refuse(e) && e@ == start_refusal(m, job),
    }
}

/// What a job has learnt from an event, and that the rest of it stays.
pub open spec fn has_learnt(old_job: StartJob, event: StartEvent, job: StartJob) -> bool {
    let good = signal_of(old_job.phase, old_job.nonce@, event) == Signal::Good;
    &&& job.state_dir == old_job.state_dir
    &&& job.run_dir == old_job.run_dir
    &&& job.space == old_job.space
    &&& job.passphrase == old_job.passphrase
    &&& job.manifest == (if old_job.phase == StartPhase::Manifest && good {
        event->Manifest_0->Found_0
    } else {
        old_job.manifest
    })
    &&& job.kvm_gid == (if old_job.phase == StartPhase::Group && good {
        event->Number_0->0
    } else {
        old_job.kvm_gid
    })
    &&& job.nonce@ == (if old_job.phase == StartPhase::Nonce && good {
        hex_text(event->Bytes_0->0@)
    } else {
        old_job.nonce@
    })
    &&& opt_text(job.secret_file) == (if old_job.phase == StartPhase::Secret && good {
        opt_text(event->Text_0)
    } else {
        opt_text(old_job.secret_file)
    })
    &&& job.report@ == (match (old_job.phase, event) {
        (StartPhase::Health, StartEvent::Health { reply, in_time: false }) => match checked(
            old_job.nonce@,
            reply,
        ) {
            Ok(_) => old_job.report@,
            Err(e) => late_report(e),
        },
        (StartPhase::Alive, StartEvent::Flag(true)) => old_job.report@,
        (StartPhase::Alive, _) => "qemu не дожил до ответа агента"@,
        (StartPhase::Exec, StartEvent::Agent(reply)) => exec_report(
            checked(old_job.nonce@, reply),
        ),
        _ => old_job.report@,
    })
}

/// An agent that answers with another nonce than that of the run is waited for as if it were
/// silent, and its word that the application runs is not taken: with such a reply no start goes
/// on as with a good one, whatever else the reply says.
pub proof fn a_foreign_nonce_starts_nothing(
    old_job: StartJob,
    job: StartJob,
    reply: AgentReply,
    in_time: bool,
)
    requires
        reply.nonce@ != old_job.nonce@,
        old_job.phase == StartPhase::Exec,
        has_learnt(old_job, StartEvent::Agent(Ok(reply)), job),
    ensures
        signal_of(
            StartPhase::Health,
            old_job.nonce@,
            StartEvent::Health { reply: Ok(reply), in_time },
        ) != Signal::Good,
        signal_of(StartPhase::Exec, old_job.nonce@, StartEvent::Agent(Ok(reply))) != Signal::Good,
        job.report@ != "started"@,
        job.report@ == "не удалось запустить приложение: "@ + health_text(
            HealthError::NonceMismatch,
        ),
{
    reveal_strlit("started");
    reveal_strlit("не удалось запустить приложение: ");
    assert("started"@.len() < "не удалось запустить приложение: "@.len());
}

fn report_of(reply: Result<AgentReply, HealthError>) -> (r: String)
    ensures
        r@ == exec_report(reply),
{
    match reply {
        Ok(a) => if a.ok {
            "started".to_owned()
        } else {
            match a.detail {
                Some(d) => d,
                None => "агент отказался запускать приложение".to_owned(),
            }
        },
        Err(e) => "не удалось запустить приложение: ".to_owned().concat(e.text().as_str()),
    }
}

fn flag(event: &StartEvent) -> (r: bool)
    ensures
        r == (*event matches StartEvent::Flag(b) && b),
{
    match event {
        StartEvent::Flag(b) => *b,
        _ => false,
    }
}

fn wrong_passphrase_in(event: &StartEvent) -> (r: bool)
    ensures
        r == (*event matches StartEvent::Text(t) && (t matches Some(log) && is_wrong_passphrase(
            tail_text(log@),
        ))),
{
    match event {
        StartEvent::Text(Some(log)) => {
            let tail = tail_of(log.as_str());
            qemu_died_of_wrong_passphrase(tail.as_str())
        },
        _ => false,
    }
}

fn clean_up(a: CleanUp, b: Option<CleanUp>, c: Option<CleanUp>, read_log: bool) -> (r: StartAction)
    ensures
        r matches StartAction::CleanUp { steps, read_log: log } && log == read_log && steps@ == (
        match (b, c) {
            (Some(b), Some(c)) => seq![a, b, c],
            (Some(b), None) => seq![a, b],
            (None, Some(c)) => seq![a, c],
            (None, None) => seq![a],
        }),
{
    let mut steps: Vec<CleanUp> = Vec::new();
    steps.push(a);
    match b {
        Some(b) => steps.push(b),
        None => {},
    }
    match c {
        Some(c) => steps.push(c),
        None => {},
    }
    StartAction::CleanUp { steps, read_log }
}

impl StartJob {
    /// Takes up the request to start a space. What the store and the request say decides at
    /// once whether it can be done; the first thing to find out is the state of the machine.
    pub fn begin(
        state_dir: String,
        run_dir: String,
        store: &Store,
        id: &str,
        passphrase: Option<String>,
    ) -> (r: Result<StartJob, Refusal>)
        ensures
            match space_with_id(store@, id@) {
                None => r matches Err(e) && e@ == not_found(id@),
                Some(c) => match passphrase_problem(c.encrypted, passphrase is Some) {
                    Some(p) => r matches Err(e) && e@ == p,
                    None => {
                        &&& r matches Ok(job)
                        &&& job.space@ == c
                        &&& job.phase == StartPhase::State
                        &&& job.state_dir == state_dir
                        &&& job.run_dir == run_dir
                        &&& job.passphrase == passphrase
                        &&& job.secret_file is None
                    },
                },
            },
    {
        let space = space_or_not_found(store, id)?;
        require_passphrase_matches_encryption(space.encrypted, &passphrase)?;
        Ok(
            StartJob {
                state_dir,
                run_dir,
                space,
                passphrase,
                phase: StartPhase::State,
                manifest: Manifest::empty(),
                kvm_gid: 0,
                nonce: String::new(),
                secret_file: None,
                report: String::new(),
            },
        )
    }

    fn template_dir(&self) -> (r: String)
        ensures
            r@ == template_dir_of(self.state_dir@, self.space.profile@, self.space.digest@),
    {
        template_dir_path(
            self.state_dir.as_str(),
            self.space.profile.as_str(),
            self.space.digest.as_str(),
        )
    }

    fn refuse(&self, m: Move) -> (r: StartAction)
        ensures
            r matches StartAction::Refuse(e) && e@ == start_refusal(m, *self),
    {
        let id = self.space.id.as_str();
        let e = match m {
            Move::RefuseRunning => refuse(
                ErrorCode::SpaceRunning,
                "спейс \"".to_owned().concat(id).concat("\" уже запущен"),
            ),
            Move::RefuseNoBridge => refuse(
                ErrorCode::NoBridge,
                "нет моста \"".to_owned().concat(BRIDGE).concat(
                    "\": сначала подними фикстуру — sudo bash components/net/net-fixture.sh up",
                ),
            ),
            Move::RefuseNoProfile => refuse(
                ErrorCode::ProfileNotFound,
                "профиль \"".to_owned().concat(self.space.profile.as_str()).concat(
                    "\" не найден",
                ),
            ),
            Move::RefuseNoTemplate => template_missing(self.template_dir().as_str()),
            Move::RefuseWrongPassphrase => refuse(
                ErrorCode::WrongPassphrase,
                "неверный пароль спейса \"".to_owned().concat(id).concat("\""),
            ),
            Move::RefuseDead => refuse(
                ErrorCode::Internal,
                "QEMU спейса \"".to_owned().concat(id).concat(
                    "\" завершился сразу после запуска; причина в журнале последнего запуска",
                ),
            ),
            Move::RefuseLost => refuse(
                ErrorCode::Internal,
                "QEMU спейса \"".to_owned().concat(id).concat(
                    "\" умер во время запуска; причина в журнале последнего запуска",
                ),
            ),
            _ => internal_error(),
        };
        StartAction::Refuse(e)
    }

    fn reply(&self) -> (r: StartAction)
        ensures
            is_action(r, Move::ReplyRunning, *self),
    {
        let mut f: Vec<(String, Json)> = Vec::new();
        assert(fields_view(f@) =~= seq![]);
        put(&mut f, "id", Json::Str(self.space.id.clone()));
        put(&mut f, "state", text("running"));
        put(&mut f, "cid", Json::Unsigned(self.space.cid as u64));
        put(&mut f, "app", Json::Str(self.report.clone()));
        assert(fields_view(f@) =~= start_reply(
            self.space.id@,
            self.space.cid,
            self.report@,
        )->Object_0);
        StartAction::Reply(object(f))
    }

    fn spawn(&self) -> (r: StartAction)
        ensures
            is_action(r, Move::Spawn, *self),
    {
        let space_dir = space_dir_path(self.state_dir.as_str(), self.space.id.as_str());
        let run = SpaceRun {
            id: self.space.id.clone(),
            cid: self.space.cid,
            uid: self.space.uid,
            template_dir: self.template_dir(),
            overlay: path_join(space_dir.as_str(), "system-overlay.qcow2"),
            data: path_join(space_dir.as_str(), "data.qcow2"),
            data_mb: self.manifest.data_mb,
            memory_mb: self.manifest.memory_mb,
            cpus: self.manifest.cpus,
            isolation_level: self.manifest.isolation_level.clone(),
            gpu: self.manifest.isolation_gpu.clone(),
            nonce: self.nonce.clone(),
            app_command: self.manifest.app_command.clone(),
            kvm_gid: self.kvm_gid,
        };
        let argv = match &self.secret_file {
            Some(path) => build_argv(&run, Some(path.as_str())),
            None => build_argv(&run, None),
        };
        StartAction::Spawn { run, argv }
    }

    fn ask_health(&self) -> (r: StartAction)
        ensures
            is_action(r, Move::AskHealth, *self),
    {
        StartAction::AskHealth { cid: self.space.cid }
    }

    /// Goes on from what came of the last action.
    pub fn step(&mut self, event: StartEvent) -> (r: StartAction)
        ensures
            has_learnt(*old(self), event, *final(self)),
            ({
                let (next, m) = advance(
                    old(self).phase,
                    signal_of(old(self).phase, old(self).nonce@, event),
                    old(self).passphrase is Some,
                );
                final(self).phase == next && is_action(r, m, *final(self))
            }),
    {
        match self.phase {
            StartPhase::State => {
                let stopped = match event {
                    StartEvent::State(SpaceState::Running) => false,
                    StartEvent::State(_) => true,
                    _ => false,
                };
                if stopped {
                    self.phase = StartPhase::Bridge;
                    StartAction::AskBridge
                } else {
                    self.phase = StartPhase::Done;
                    self.refuse(Move::RefuseRunning)
                }
            },
            StartPhase::Bridge => {
                if flag(&event) {
                    self.phase = StartPhase::Manifest;
                    StartAction::ReadManifest { profile: self.space.profile.clone() }
                } else {
                    self.phase = StartPhase::Done;
                    self.refuse(Move::RefuseNoBridge)
                }
            },
            StartPhase::Manifest => {
                match event {
                    StartEvent::Manifest(ManifestRead::Found(m)) => {
                        self.manifest = m;
                        self.phase = StartPhase::Template;
                        let dir = self.template_dir();
                        StartAction::CheckFile { path: path_join(dir.as_str(), "root.qcow2") }
                    },
                    StartEvent::Manifest(ManifestRead::Missing) => {
                        self.phase = StartPhase::Done;
                        self.refuse(Move::RefuseNoProfile)
                    },
                    _ => {
                        self.phase = StartPhase::Done;
                        self.refuse(Move::RefuseInternal)
                    },
                }
            },
            StartPhase::Template => {
                if flag(&event) {
                    self.phase = StartPhase::Group;
                    StartAction::AskGroup
                } else {
                    self.phase = StartPhase::Done;
                    self.refuse(Move::RefuseNoTemplate)
                }
            },
            StartPhase::Group => {
                match event {
                    StartEvent::Number(Some(gid)) => {
                        self.kvm_gid = gid;
                        self.phase = StartPhase::Nonce;
                        StartAction::DrawRandom
                    },
                    _ => {
                        self.phase = StartPhase::Done;
                        self.refuse(Move::RefuseInternal)
                    },
                }
            },
            StartPhase::Nonce => {
                match event {
                    StartEvent::Bytes(Some(random)) => {
                        self.nonce = generate_nonce(&random);
                        self.phase = StartPhase::RunDir;
                        StartAction::MakeRunDir {
                            dir: path_join(self.run_dir.as_str(), self.space.id.as_str()),
                            nonce: self.nonce.clone(),
                        }
                    },
                    _ => {
                        self.phase = StartPhase::Done;
                        self.refuse(Move::RefuseInternal)
                    },
                }
            },
            StartPhase::RunDir => {
                if flag(&event) {
                    self.phase = StartPhase::Reap;
                    StartAction::ReapTap { cid: self.space.cid }
                } else {
                    self.phase = StartPhase::Done;
                    self.refuse(Move::RefuseInternal)
                }
            },
            StartPhase::Reap => {
                if flag(&event) {
                    self.phase = StartPhase::Tap;
                    StartAction::RaiseTap { cid: self.space.cid, uid: self.space.uid }
                } else {
                    self.phase = StartPhase::Done;
                    self.refuse(Move::RefuseInternal)
                }
            },
            StartPhase::Tap => {
                if !flag(&event) {
                    self.phase = StartPhase::Done;
                    return self.refuse(Move::RefuseInternal);
                }
                match &self.passphrase {
                    Some(passphrase) => {
                        let action = StartAction::WriteSecret {
                            uid: self.space.uid,
                            passphrase: passphrase.clone(),
                        };
                        self.phase = StartPhase::Secret;
                        action
                    },
                    None => {
                        self.phase = StartPhase::Spawn;
                        self.spawn()
                    },
                }
            },
            StartPhase::Secret => {
                match event {
                    StartEvent::Text(Some(path)) => {
                        self.secret_file = Some(path);
                        self.phase = StartPhase::Spawn;
                        self.spawn()
                    },
                    _ => {
                        self.phase = StartPhase::Undone;
                        clean_up(CleanUp::DropTap, Some(CleanUp::RemoveSecret), None, false)
                    },
                }
            },
            StartPhase::Spawn => {
                if flag(&event) {
                    self.phase = StartPhase::Settle;
                    StartAction::Settle
                } else {
                    self.phase = StartPhase::Undone;
                    clean_up(CleanUp::DropTap, Some(CleanUp::RemoveSecret), None, false)
                }
            },
            StartPhase::Settle => {
                if flag(&event) {
                    self.phase = StartPhase::Health;
                    self.ask_health()
                } else {
                    self.phase = StartPhase::Dead;
                    clean_up(
                        CleanUp::DropTap,
                        Some(CleanUp::RemovePidFile),
                        Some(CleanUp::RemoveSecret),
                        true,
                    )
                }
            },
            StartPhase::Health => {
                match event {
                    StartEvent::Health { reply, in_time } => {
                        match health(self.nonce.as_str(), reply) {
                            Ok(()) => {
                                self.phase = StartPhase::Exec;
                                StartAction::ExecApp { cid: self.space.cid }
                            },
                            Err(e) => {
                                if in_time {
                                    self.phase = StartPhase::Alive;
                                } else {
                                    self.report =
                                    "агент не ответил за отведённое время: ".to_owned().concat(
                                        e.text().as_str(),
                                    );
                                    self.phase = StartPhase::Verdict;
                                }
                                StartAction::AskAlive
                            },
                        }
                    },
                    _ => {
                        self.phase = StartPhase::Alive;
                        StartAction::AskAlive
                    },
                }
            },
            StartPhase::Alive => {
                if flag(&event) {
                    self.phase = StartPhase::Pause;
                    StartAction::Pause { progress: "ждём агента гостя".to_owned() }
                } else {
                    self.report = "qemu не дожил до ответа агента".to_owned();
                    self.phase = StartPhase::Verdict;
                    StartAction::AskAlive
                }
            },
            StartPhase::Pause => {
                self.phase = StartPhase::Health;
                self.ask_health()
            },
            StartPhase::Exec => {
                match event {
                    StartEvent::Agent(reply) => {
                        self.report = report_of(exec_app(self.nonce.as_str(), reply));
                        if str_equal(self.report.as_str(), "started") {
                            self.phase = StartPhase::Done;
                            self.reply()
                        } else {
                            self.phase = StartPhase::Verdict;
                            StartAction::AskAlive
                        }
                    },
                    _ => {
                        self.phase = StartPhase::Verdict;
                        StartAction::AskAlive
                    },
                }
            },
            StartPhase::Verdict => {
                if flag(&event) {
                    self.phase = StartPhase::Done;
                    self.reply()
                } else {
                    self.phase = StartPhase::Lost;
                    clean_up(
                        CleanUp::KillAndReap,
                        Some(CleanUp::DropTap),
                        Some(CleanUp::RemoveSecret),
                        true,
                    )
                }
            },
            StartPhase::Undone => {
                self.phase = StartPhase::Done;
                self.refuse(Move::RefuseInternal)
            },
            StartPhase::Dead => {
                self.phase = StartPhase::Done;
                if wrong_passphrase_in(&event) {
                    self.refuse(Move::RefuseWrongPassphrase)
                } else {
                    self.refuse(Move::RefuseDead)
                }
            },
            StartPhase::Lost => {
                self.phase = StartPhase::Done;
                if wrong_passphrase_in(&event) {
                    self.refuse(Move::RefuseWrongPassphrase)
                } else {
                    self.refuse(Move::RefuseLost)
                }
            },
            StartPhase::Done => self.refuse(Move::RefuseInternal),
        }
    }
}

} // verus!
