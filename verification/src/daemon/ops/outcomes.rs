//! What an operation learns on its way, and what it tells of what came of it.
use crate::agent::{health_text, AgentReply, HealthError};
use crate::daemon::ops::create::{self, CreateEvent, CreateJob, CreatePhase};
use crate::daemon::ops::shared::{hex_text, ErrorCode, ManifestRead, RefusalView};
use crate::daemon::ops::start::{
    self, CleanUp, Move, Signal, StartAction, StartEvent, StartJob, StartPhase,
};
use crate::daemon::ops::stop::{
    is_window_step, stop_has_learnt, StopEvent, StopJob, StopPhase, WindowAction, WindowJob,
    WindowPhase,
};
use crate::daemon::ops::volumes::{
    self, VolumeAction, VolumeEvent, VolumeJob, VolumeMove, VolumeOp, VolumePhase,
};
use crate::daemon::qemu::SpaceState;
use crate::json::{find_field, get, JsonView};
use crate::text::{hex, hex2, hex_digit, join, lines, occurs, opt_text, trim};
use vstd::prelude::*;

verus! {

// ---------------------------------------------------------------------------------------------
// Start
// ---------------------------------------------------------------------------------------------

/// A start keeps what it is told, and changes nothing that it was not told of: the manifest of the
/// profile, the group of the device, the nonce of the run, the file of the passphrase.
pub proof fn a_start_keeps_what_it_is_told(old_job: StartJob, event: StartEvent, job: StartJob)
    requires
        start::has_learnt(old_job, event, job),
    ensures
        job.space == old_job.space && job.state_dir == old_job.state_dir && job.run_dir
            == old_job.run_dir && job.passphrase == old_job.passphrase,
        old_job.phase == StartPhase::Manifest ==> (event matches StartEvent::Manifest(
            ManifestRead::Found(m),
        ) ==> job.manifest == m),
        old_job.phase == StartPhase::Group ==> (event matches StartEvent::Number(Some(gid))
            ==> job.kvm_gid == gid),
        old_job.phase == StartPhase::Nonce ==> (event matches StartEvent::Bytes(Some(random))
            ==> job.nonce@ == hex_text(random@)),
        old_job.phase == StartPhase::Secret ==> (event matches StartEvent::Text(Some(file))
            ==> opt_text(job.secret_file) == Some(file@)),
        old_job.phase != StartPhase::Manifest ==> job.manifest == old_job.manifest,
        old_job.phase != StartPhase::Group ==> job.kvm_gid == old_job.kvm_gid,
        old_job.phase != StartPhase::Nonce ==> job.nonce@ == old_job.nonce@,
        old_job.phase != StartPhase::Secret ==> opt_text(job.secret_file) == opt_text(
            old_job.secret_file,
        ),
{
}

proof fn lemma_octet(n: nat)
    requires
        n <= 255,
    ensures
        hex2(n) == seq![hex_digit(n / 16), hex_digit(n % 16)],
{
    reveal_with_fuel(hex, 2);
    assert(hex2(n) =~= seq![hex_digit(n / 16), hex_digit(n % 16)]);
}

proof fn lemma_hex_len(bytes: Seq<u8>)
    ensures
        hex_text(bytes).len() == 2 * bytes.len(),
    decreases bytes.len(),
{
    if bytes.len() > 0 {
        lemma_hex_len(bytes.drop_last());
        lemma_octet(bytes.last() as nat);
    }
}

/// Two runs share their nonce only if they drew the same bytes.
pub proof fn a_nonce_holds_what_was_drawn(a: Seq<u8>, b: Seq<u8>)
    requires
        hex_text(a) == hex_text(b),
    ensures
        a == b,
    decreases a.len(),
{
    lemma_hex_len(a);
    lemma_hex_len(b);
    if a.len() > 0 {
        let x = a.last() as nat;
        let y = b.last() as nat;
        lemma_octet(x);
        lemma_octet(y);
        lemma_hex_len(a.drop_last());
        lemma_hex_len(b.drop_last());
        let front = hex_text(a.drop_last());
        let other = hex_text(b.drop_last());
        let n = front.len() as int;
        assert(hex_text(a).take(n) =~= front);
        assert(hex_text(b).take(n) =~= other);
        a_nonce_holds_what_was_drawn(a.drop_last(), b.drop_last());
        assert(hex_text(a)[n] == hex_digit(x / 16) && hex_text(b)[n] == hex_digit(y / 16));
        assert(hex_text(a)[n + 1] == hex_digit(x % 16) && hex_text(b)[n + 1] == hex_digit(y % 16));
        assert(x / 16 == y / 16 && x % 16 == y % 16);
        assert(a =~= a.drop_last().push(a.last()));
        assert(b =~= b.drop_last().push(b.last()));
    } else {
        assert(a =~= b);
    }
}

/// What is told of the application: that it was started, if the agent of this run says so; else
/// what the agent says, that it stayed silent, or that the machine did not live to hear it.
pub proof fn a_start_tells_of_the_application(
    old_job: StartJob,
    event: StartEvent,
    job: StartJob,
)
    requires
        start::has_learnt(old_job, event, job),
    ensures
        old_job.phase == StartPhase::Exec ==> (event matches StartEvent::Agent(reply) ==> {
            &&& (reply matches Ok(r) && r.nonce@ == old_job.nonce@ && r.ok) ==> job.report@
                == "started"@
            &&& (reply matches Ok(r) && r.nonce@ == old_job.nonce@ && !r.ok && r.detail is Some)
                ==> job.report@ == reply->Ok_0.detail->0@
            &&& (reply matches Ok(r) && r.nonce@ == old_job.nonce@ && !r.ok && r.detail is None)
                ==> job.report@ == "агент отказался запускать приложение"@
            &&& reply is Err ==> job.report@ == "не удалось запустить приложение: "@ + health_text(
                reply->Err_0,
            )
        }),
        old_job.phase == StartPhase::Health ==> (event matches StartEvent::Health {
            reply: Err(e),
            in_time,
        } ==> job.report@ == (if in_time {
            old_job.report@
        } else {
            "агент не ответил за отведённое время: "@ + health_text(e)
        })),
        old_job.phase == StartPhase::Alive ==> job.report@ == (if event == StartEvent::Flag(true) {
            old_job.report@
        } else {
            "qemu не дожил до ответа агента"@
        }),
        old_job.phase != StartPhase::Exec && old_job.phase != StartPhase::Health && old_job.phase
            != StartPhase::Alive ==> job.report@ == old_job.report@,
{
}

/// The agent is waited for until the time is up, and only the agent of this run ends the waiting.
pub proof fn an_agent_is_waited_for(
    nonce: Seq<char>,
    reply: Result<AgentReply, HealthError>,
    in_time: bool,
    a: StartAction,
    job: StartJob,
)
    ensures
        ({
            let heard = start::signal_of(
                StartPhase::Health,
                nonce,
                StartEvent::Health { reply, in_time },
            );
            &&& heard == Signal::Good <==> (reply matches Ok(r) && r.nonce@ == nonce)
            &&& heard == Signal::Bad <==> in_time && !(reply matches Ok(r) && r.nonce@ == nonce)
        }),
        start::is_action(a, Move::Pause, job) ==> (a matches StartAction::Pause { progress }
            && progress@ == "ждём агента гостя"@),
{
}

/// What is taken back: the tap and the passphrase always, the file of the process of a machine
/// that is dead, and the machine itself where it may still live. The log is read where the machine
/// has written one.
pub proof fn a_failed_start_clears_up(a: StartAction, job: StartJob)
    ensures
        start::is_action(a, Move::UndoTapAndSecret, job) ==> (a matches StartAction::CleanUp {
            steps,
            read_log,
        } && !read_log && steps@.len() == 2 && steps@.contains(CleanUp::DropTap)
            && steps@.contains(CleanUp::RemoveSecret)),
        start::is_action(a, Move::UndoDead, job) ==> (a matches StartAction::CleanUp {
            steps,
            read_log,
        } && read_log && steps@.len() == 3 && steps@.contains(CleanUp::DropTap)
            && steps@.contains(CleanUp::RemoveSecret) && steps@.contains(CleanUp::RemovePidFile)),
        start::is_action(a, Move::UndoLost, job) ==> (a matches StartAction::CleanUp {
            steps,
            read_log,
        } && read_log && steps@.len() == 3 && steps@[0] == CleanUp::KillAndReap && steps@.contains(
            CleanUp::DropTap,
        ) && steps@.contains(CleanUp::RemoveSecret)),
{
    if let StartAction::CleanUp { steps, read_log } = a {
        let s = steps@;
        if s.len() >= 2 {
            assert(s.contains(s[0]) && s.contains(s[1]));
        }
        if s.len() >= 3 {
            assert(s.contains(s[2]));
        }
    }
}

/// A machine that died is taken to have died of a wrong passphrase exactly if the end of its log
/// says so; how it ended before does not count.
pub proof fn a_wrong_passphrase_is_read_from_the_log(
    phase: StartPhase,
    nonce: Seq<char>,
    event: StartEvent,
)
    requires
        phase == StartPhase::Dead || phase == StartPhase::Lost,
    ensures
        start::signal_of(phase, nonce, event) == Signal::Good <==> (event matches StartEvent::Text(
            Some(log),
        ) && ({
            let all = lines(log@);
            let end = if all.len() > 5 {
                all.subrange(all.len() - 5, all.len() as int)
            } else {
                all
            };
            occurs(join(end, "\n"@), "Invalid password, cannot unlock any keyslot"@)
        })),
{
    if let StartEvent::Text(Some(log)) = event {
        let all = lines(log@);
        if all.len() > 5 {
            assert(all.subrange(all.len() - 5, all.len() as int) =~= all.skip(all.len() - 5));
        }
    }
}

// ---------------------------------------------------------------------------------------------
// Stop
// ---------------------------------------------------------------------------------------------

/// What a stop tells of its guest: the words of the agent where it gave any, else what came of the
/// question.
pub proof fn a_stop_tells_of_its_guest(old_job: StopJob, event: StopEvent, job: StopJob)
    requires
        stop_has_learnt(old_job, event, job),
        trim(old_job.nonce@).len() > 0,
    ensures
        old_job.phase == StopPhase::Agent ==> (event matches StopEvent::Agent(reply) ==> {
            let ours = reply is Ok && reply->Ok_0.nonce@ == trim(old_job.nonce@);
            &&& ours && reply->Ok_0.detail is Some ==> job.detail@ == reply->Ok_0.detail->0@
            &&& ours && reply->Ok_0.detail is None && job.graceful ==> job.detail@
                == "том отмонтирован"@
            &&& ours && reply->Ok_0.detail is None && !job.graceful ==> job.detail@
                == "агент не подтвердил размонтирование тома"@
            &&& reply is Err ==> job.detail@ == "агент недостижим: "@ + health_text(reply->Err_0)
            &&& reply is Ok && !ours ==> job.detail@ == "агент недостижим: "@ + health_text(
                HealthError::NonceMismatch,
            )
        }),
        old_job.phase == StopPhase::Nonce ==> (event matches StopEvent::Nonce(Err(words))
            ==> !job.graceful && job.detail@ == "nonce спейса не читается: "@ + words@),
        old_job.phase == StopPhase::Nonce ==> (event matches StopEvent::Nonce(Ok(raw)) ==> (trim(
            raw@,
        ).len() > 0 ==> job.nonce@ == raw@)),
{
}

/// The words for what went wrong with an agent tell silence from a stranger, and pass on what the
/// transport says.
pub proof fn a_silent_agent_is_told_from_a_stranger(message: String)
    ensures
        health_text(HealthError::Timeout) == "агент не ответил за отведённое время"@,
        health_text(HealthError::NonceMismatch) == "агент ответил чужим nonce"@,
        health_text(HealthError::Io(message)) == message@,
{
}

// ---------------------------------------------------------------------------------------------
// Windows
// ---------------------------------------------------------------------------------------------

/// A window is opened by the guest of a running space: the agent of the run is asked, and what it
/// says is told. Whatever keeps it from answering is told as such.
pub proof fn a_window_is_opened_by_its_guest(
    job: WindowJob,
    event: StopEvent,
    next: WindowPhase,
    a: WindowAction,
)
    requires
        is_window_step(job, event, next, a),
    ensures
        job.phase == WindowPhase::State ==> {
            &&& event == StopEvent::State(SpaceState::Running) ==> next == WindowPhase::Nonce && a
                is ReadNonce
            &&& event != StopEvent::State(SpaceState::Running) ==> next == WindowPhase::Done && (
            a matches WindowAction::Refuse(e) && e.code == ErrorCode::SpaceStopped)
        },
        job.phase == WindowPhase::Nonce ==> (event matches StopEvent::Nonce(read) ==> {
            &&& read is Ok && trim(read->Ok_0@).len() > 0 ==> next == WindowPhase::Agent && a == (
            WindowAction::ExecApp { cid: job.space.cid })
            &&& !(read is Ok && trim(read->Ok_0@).len() > 0) ==> next == WindowPhase::Done && (
            a matches WindowAction::Refuse(e) && e.code == ErrorCode::AgentTimeout)
        }),
        job.phase == WindowPhase::Agent ==> (event matches StopEvent::Agent(reply) ==> {
            let ours = reply is Ok && reply->Ok_0.nonce@ == job.nonce@;
            &&& next == WindowPhase::Done
            &&& ours && reply->Ok_0.ok ==> (a matches WindowAction::Reply(v) && get(v@, "id"@)
                == Some(JsonView::Str(job.space.id@)) && get(v@, "detail"@) == Some(
                JsonView::Str(
                    match reply->Ok_0.detail {
                        Some(d) => d@,
                        None => "окно открыто"@,
                    },
                ),
            ))
            &&& !(ours && reply->Ok_0.ok) ==> (a matches WindowAction::Refuse(e) && e.code
                == ErrorCode::AgentTimeout)
            &&& ours && !reply->Ok_0.ok ==> (a matches WindowAction::Refuse(e) && e.message@ == (
            match reply->Ok_0.detail {
                Some(d) => d@,
                None => "агент отказался открывать окно"@,
            }))
            &&& reply is Err ==> (a matches WindowAction::Refuse(e) && e.message@
                == "агент недостижим: "@ + health_text(reply->Err_0))
        }),
{
    reveal_strlit("id");
    reveal_strlit("detail");
    assert("id"@.len() == 2 && "detail"@.len() == 6);
    reveal_with_fuel(find_field, 3);
    if let WindowAction::Refuse(e) = a {
        assert(e@.code == e.code && e@.message == e.message@);
    }
}

// ---------------------------------------------------------------------------------------------
// Creation, reset and update
// ---------------------------------------------------------------------------------------------

/// A creation keeps what was asked for and what it is told, and changes nothing that it was not told
/// of: the manifest, the image, the account that reads the seed, the file of the passphrase.
pub proof fn a_creation_keeps_what_it_is_told(
    old_job: CreateJob,
    event: CreateEvent,
    job: CreateJob,
)
    requires
        create::has_learnt(old_job, event, job),
    ensures
        job.seed == old_job.seed && job.passphrase == old_job.passphrase && job.state_dir
            == old_job.state_dir,
        job.new.id == old_job.new.id && job.new.profile == old_job.new.profile && job.new.label
            == old_job.new.label && job.new.color == old_job.new.color && job.new.encrypted
            == old_job.new.encrypted,
        old_job.phase == CreatePhase::Manifest ==> (event matches CreateEvent::Manifest(
            ManifestRead::Found(m),
        ) ==> job.manifest == m),
        old_job.phase != CreatePhase::Manifest ==> job.manifest == old_job.manifest,
        old_job.phase == CreatePhase::Owner ==> (event matches CreateEvent::Number(Some(owner))
            ==> job.seed_uid == (match old_job.build_uid {
            Some(uid) => uid,
            None => owner,
        })),
        old_job.phase != CreatePhase::Owner ==> job.seed_uid == old_job.seed_uid,
        old_job.phase != CreatePhase::Accounts ==> job.seed_gid == old_job.seed_gid,
        old_job.phase != CreatePhase::Templates ==> job.new.digest == old_job.new.digest,
        old_job.phase == CreatePhase::Secret ==> (event matches CreateEvent::Text(Some(file))
            ==> opt_text(job.secret_file) == Some(file@)),
        old_job.phase != CreatePhase::Secret ==> opt_text(job.secret_file) == opt_text(
            old_job.secret_file,
        ),
        old_job.phase == CreatePhase::Store ==> (event matches CreateEvent::Store(Some(store))
            ==> job.store@ == store@),
        old_job.phase != CreatePhase::Store && old_job.phase != CreatePhase::Host ==> job.store@
            == old_job.store@,
{
}

/// A request that is refused before anything is looked at is told why.
pub proof fn a_bad_request_is_told(id: Seq<char>, passphrase: Option<Seq<char>>)
    ensures
        passphrase == Some(Seq::<char>::empty()) ==> (create::request_problem(
            id,
            passphrase,
        ) matches Some(p) && p.message == "пароль спейса не может быть пустым"@),
        passphrase is None && id == "miyori-net"@ ==> (create::request_problem(
            id,
            passphrase,
        ) matches Some(p) && p.message == "id \""@ + id + "\" зарезервирован за сетевой VM"@),
{
}

/// A reset or an update keeps the passphrase that it was given, the manifest that it read and the
/// file that the passphrase was written to.
pub proof fn a_reset_keeps_what_it_is_told(old_job: VolumeJob, event: VolumeEvent, job: VolumeJob)
    requires
        volumes::has_learnt(old_job, event, job),
    ensures
        job.passphrase == old_job.passphrase && job.space == old_job.space && job.state_dir
            == old_job.state_dir && job.op == old_job.op,
        old_job.phase == VolumePhase::Manifest ==> (event matches VolumeEvent::Manifest(
            ManifestRead::Found(m),
        ) ==> job.manifest == m),
        old_job.phase != VolumePhase::Manifest ==> job.manifest == old_job.manifest,
        old_job.phase == VolumePhase::Secret ==> (event matches VolumeEvent::Text(Some(file))
            ==> opt_text(job.secret_file) == Some(file@)),
        old_job.phase != VolumePhase::Secret ==> opt_text(job.secret_file) == opt_text(
            old_job.secret_file,
        ),
{
}

/// An update tells from which image to which one the space has moved, or that it has not moved; a
/// reset tells which space was reset.
pub proof fn an_update_tells_where_the_space_has_moved(
    job: VolumeJob,
    a: VolumeAction,
    e: RefusalView,
)
    ensures
        volumes::is_action(a, VolumeMove::Reply, job, e) ==> (a matches VolumeAction::Reply(v)
            && get(v@, "id"@) == Some(JsonView::Str(job.space.id@)) && (job.op
            == VolumeOp::UpdateImage ==> get(v@, "from"@) == Some(JsonView::Str(job.space.digest@))
            && get(v@, "to"@) == Some(JsonView::Str(job.digest@)) && get(v@, "detail"@) == Some(
            JsonView::Str("образ обновлён, /data не тронут"@),
        ))),
        volumes::is_action(a, VolumeMove::ReplyUnchanged, job, e) ==> (
        a matches VolumeAction::Reply(v) && get(v@, "id"@) == Some(JsonView::Str(job.space.id@))
            && get(v@, "from"@) == Some(JsonView::Str(job.space.digest@)) && get(v@, "to"@) == Some(
            JsonView::Str(job.space.digest@),
        ) && get(v@, "detail"@) == Some(JsonView::Str("спейс уже на текущем образе"@))),
{
    reveal_strlit("id");
    reveal_strlit("from");
    reveal_strlit("to");
    reveal_strlit("detail");
    assert("id"@.len() == 2 && "from"@.len() == 4 && "to"@.len() == 2 && "detail"@.len() == 6);
    assert("id"@[0] == 'i' && "to"@[0] == 't');
    reveal_with_fuel(find_field, 5);
}

} // verus!
